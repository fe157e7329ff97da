//! The prompts that a model is given.

use crate::blueprint;
use crate::blueprint::{
    BlueprintView, DocumentSpec, DocumentView, PartView, SectionBlueprint, SectionPartBlueprint,
};
use crate::bytes;
use crate::models;
use crate::models::{
    PlanView, ReferenceStyle, ResearchPlan, ResearchSection, ResearchSource, ResearchTier,
    SectionView, SourceView,
};
use crate::numbers;
use crate::pieces;
use crate::rendering;
use crate::rendering::{ReportContext, ReportContextView};
use crate::sections;
use crate::text;
use crate::trim;
use vstd::prelude::*;

verus! {

broadcast use text::lemma_views_push;

/// The part that a model plays when it writes a report.
pub const PROFESSOR_SYSTEM_PROMPT: &'static str = "\
    You are Professor AI, a world-class academic researcher.\n\n\
    ⚠️ CRITICAL OUTPUT RULE (read this first, it overrides everything else):\n\
    Your response MUST contain ONLY finished academic prose. You MUST NEVER output:\n\
    - Any planning, outlining, or brainstorming (e.g. \"Start with X, then Y...\")\n\
    - Any self-checks or quality evaluations (e.g. \"Check: Did I use leverage? No.\")\n\
    - Any word count calculations (e.g. \"P1: ~110 words. Total: ~470 words.\")\n\
    - Any labels like \"Opening:\", \"Body:\", \"Closing:\", \"Constraint Check:\", \"Draft:\"\n\
    - Any reasoning notes, revision thoughts, or self-correction monologues\n\
    - Any meta-commentary about what you are doing or how you are writing\n\
    If you feel the urge to write a planning note or self-check BEFORE the prose, STOP. Do not write it. Begin directly with the first sentence of the finished academic text.\n\n\
    Writing Style:\n\
    - Write like a thoughtful human researcher, not a textbook or AI.\n\
    - Use a mix of short and long sentences.\n\
    - Avoid overly complex or inflated academic language. Keep the tone clear, natural, slightly conversational but formal.\n\
    - Occasionally use phrases like: \"However, this raises an important question...\", \"Interestingly...\", \"In practice...\", \"This suggests that...\"\n\n\
    Human Thinking & Originality:\n\
    - Do not just summarize — include light critical thinking.\n\
    - Occasionally question assumptions, highlight contradictions, and offer interpretations.\n\
    - Avoid repeating the same idea in different words.\n\n\
    Language Control:\n\
    - Avoid buzzwords like: \"leverage,\" \"paradigm shift,\" \"robust framework,\" \"systemic optimization\" unless indispensable.\n\
    - Prefer simpler alternatives where possible. Ensure sentences sound like spoken academic English, not generated text.\n\n\
    Citations (VERY IMPORTANT):\n\
    - Use realistic academic citations in the exact requested format (e.g., (Author, Year) like (Wang & Lee, 2021)).\n\
    - Do NOT use generated placeholders like (Google, n.d.), (ScienceDirect, n.d.), or (Academia, n.d.).\n\
    - Do NOT include meta-comments about citation styles.\n\n\
    Reduce AI Patterns:\n\
    - Avoid repeating key phrases excessively. Vary vocabulary naturally.\n\
    - Introduce slight imperfections in flow (not errors, just human rhythm) so it doesn't sound overly polished.\n\n\
    Add Real-World Context:\n\
    - Include practical examples, real-world applications, and occasional mentions of current events or industry use.\n\n\
    Humane Perspective:\n\
    - Briefly acknowledge human impact, ethical concerns, workforce or societal implications.\n\n\
    Tone Balance:\n\
    - Do not sound overly confident or absolute. Use balanced language: \"suggests,\" \"appears to,\" \"may indicate.\"\n\n\
    Formatting Rules:\n\
    - Return ONLY the completed prose. No outlines. No TODOs. No planning notes. No meta-commentary. No self-checks.\n\
    - Form transitions naturally; do not make every paragraph the same length or style.\n\
    - When asked for JSON, return valid JSON only.";

/// The part that a model plays when it writes a brief.
pub const WHATSAPP_RESEARCH_SYSTEM_PROMPT: &'static str = "\
    You are Professor AI on WhatsApp, a fast, source-grounded research assistant.\n\n\
    Your job is to answer the user's topic clearly using ONLY the retrieved evidence you are given.\n\n\
    Rules:\n\
    - Give a direct answer first, not throat-clearing.\n\
    - Be concise, but actually useful.\n\
    - Sound like a sharp human researcher, not a chatbot.\n\
    - Mention uncertainty where the evidence is thin or conflicting.\n\
    - Never invent facts, books, authors, or findings.\n\
    - If public social discussion is included, treat it as directional evidence, not hard proof.\n\
    - If book sources are included, distinguish public-domain downloads from normal catalog references.\n\
    - Keep the reply WhatsApp-friendly: short paragraphs, short bullets, clean formatting.\n\
    - Do not use markdown tables.\n\
    - Do not mention internal tooling, prompts, or \"source dossier\".\n\n\
    Output format:\n\
    1. A short title line.\n\
    2. A concise answer in 2 to 4 short paragraphs.\n\
    3. A `What stands out:` section with 3 to 5 bullets.\n\
    4. A `Sources to open:` section with up to 5 bullet items.\n\
    5. If relevant, a `Books:` section with up to 3 bullet items.\n\n\
    Return plain text only.";

/// The part that a model plays when it rewrites a question.
pub const REFORMULATION_SYSTEM_PROMPT: &'static str = "You are a query reformulation assistant. Given a conversation history and a new follow-up question, rewrite the follow-up into a single, fully self-contained research query that a search engine would understand without any prior context. Output ONLY the rewritten query — no explanation, no quotes, no preamble.";

/// What a section is written from.
pub struct SectionGenerationContext<'a> {
    pub topic: &'a str,
    pub tier: ResearchTier,
    pub reference_style: ReferenceStyle,
    pub plan: &'a ResearchPlan,
    pub sources: &'a Vec<ResearchSource>,
    pub previous_sections: &'a Vec<ResearchSection>,
}

pub struct ContextView {
    pub topic: Seq<char>,
    pub tier: ResearchTier,
    pub reference_style: ReferenceStyle,
    pub plan: PlanView,
    pub sources: Seq<SourceView>,
    pub previous: Seq<SectionView>,
}

impl<'a> View for SectionGenerationContext<'a> {
    type V = ContextView;

    open spec fn view(&self) -> ContextView {
        ContextView {
            topic: self.topic@,
            tier: self.tier,
            reference_style: self.reference_style,
            plan: self.plan@,
            sources: models::source_views(self.sources@),
            previous: models::section_views(self.previous_sections@),
        }
    }
}

// Sections, bibliographies and plans

/// What a model is asked for the next part of a section.
pub open spec fn part_prompt(
    c: ContextView,
    b: BlueprintView,
    p: PartView,
    done: Seq<Seq<char>>,
) -> Seq<char> {
    "Write only the next polished prose fragment for a larger academic section.\n\nTopic: "@
        + c.topic
        + "\nDeliverable: "@
        + c.tier.deliverable()
        + "\nTitle: "@
        + c.plan.title
        + "\nTier: "@
        + c.tier.name()
        + "\nReference style: "@
        + c.reference_style.name()
        + "\nCentral thesis: "@
        + c.plan.thesis
        + "\nMethodology frame: "@
        + c.plan.methodology
        + "\nKeywords: "@
        + pieces::join(c.plan.keywords, ", "@)
        + "\nParent section heading: "@
        + b.heading
        + "\nParent section brief: "@
        + b.brief
        + "\nFragment focus: "@
        + p.label
        + "\nFragment brief: "@
        + p.brief
        + "\nTarget fragment length: about "@
        + numbers::decimal(p.target_words as nat)
        + " words\nMinimum acceptable fragment length: "@
        + numbers::decimal(blueprint::part_floor(p.target_words) as nat)
        + " words\nMinimum in-text citations in this fragment: "@
        + numbers::decimal(p.minimum_citations as nat)
        + "\nCitation guidance: "@
        + b.citation_expectation
        + "\n\nResearch questions:\n"@
        + rendering::questions_text(c.plan.research_questions)
        + "\n\nPrevious section continuity notes:\n"@
        + rendering::continuity(c.previous)
        + "\n\nEarlier fragments already drafted for this same section:\n"@
        + rendering::earlier_parts(done)
        + "\n\nEvidence dossier to use silently:\n"@
        + rendering::dossier(c.sources)
        + "\n\n⚠️ HARD REQUIREMENTS (violation = failure):\n\
        - Begin your response with the VERY FIRST SENTENCE of finished academic prose. Not a plan. Not a label. Not a check.\n\
        - NEVER output ANY of the following: outlines, planning notes, self-checks, word count estimates, quality checks, revision thoughts, constraint checks, labels like 'Opening:', 'Body:', 'Check:', 'Draft:', or any meta-commentary whatsoever\n\
        - Return ONLY connected academic prose paragraphs for this fragment\n\
        - Do not include the main section heading, a subsection heading, or labels such as \"Fragment 1\"\n\
        - Advance the argument from the earlier fragments instead of repeating their setup\n\
        - Write only polished paragraphs in final scholarly prose\n\
        - Do not echo the brief, source list, or planning memo\n\
        - Do not use bullets, numbering, checklists, or labels like \"Drafting:\", \"Paragraph 1:\", or \"Word count check:\"\n\
        - Do not include editor notes, self-evaluation, or meta commentary\n\
        - Use the requested reference style for in-text citations\n\
        - Return only the completed fragment"@
}

/// What a model is asked for the next part of a section.
pub fn build_section_part_prompt(
    context: &SectionGenerationContext,
    blueprint: &SectionBlueprint,
    part: &SectionPartBlueprint,
    completed_parts: &Vec<String>,
) -> (r: String)
    requires
        part.target_words * blueprint::SECTION_PART_WORD_FLOOR_PERCENT <= usize::MAX,
    ensures
        r@ == part_prompt(
            context@,
            blueprint@,
            part@,
            text::views(completed_parts@),
        ),
{
    let keywords = pieces::joined(&context.plan.keywords, ", ");
    let research_questions = rendering::render_research_questions(&context.plan.research_questions);
    let continuity = rendering::render_previous_sections(context.previous_sections);
    let prior_fragments = rendering::render_section_part_previews(completed_parts);
    let source_dossier = rendering::render_source_dossier(context.sources);
    let mut r = text::copy(
        "Write only the next polished prose fragment for a larger academic section.\n\nTopic: ",
    );
    r.append(context.topic);
    r.append("\nDeliverable: ");
    r.append(context.tier.deliverable_name());
    r.append("\nTitle: ");
    r.append(context.plan.title.as_str());
    r.append("\nTier: ");
    r.append(context.tier.label());
    r.append("\nReference style: ");
    r.append(context.reference_style.label());
    r.append("\nCentral thesis: ");
    r.append(context.plan.thesis.as_str());
    r.append("\nMethodology frame: ");
    r.append(context.plan.methodology.as_str());
    r.append("\nKeywords: ");
    r.append(keywords.as_str());
    r.append("\nParent section heading: ");
    r.append(blueprint.heading);
    r.append("\nParent section brief: ");
    r.append(blueprint.brief);
    r.append("\nFragment focus: ");
    r.append(part.label);
    r.append("\nFragment brief: ");
    r.append(part.brief);
    r.append("\nTarget fragment length: about ");
    numbers::push_decimal(&mut r, part.target_words as u64);
    r.append(" words\nMinimum acceptable fragment length: ");
    numbers::push_decimal(&mut r, blueprint::minimum_words_for_section_part(part) as u64);
    r.append(" words\nMinimum in-text citations in this fragment: ");
    numbers::push_decimal(&mut r, part.minimum_citations as u64);
    r.append("\nCitation guidance: ");
    r.append(blueprint.citation_expectation);
    r.append("\n\nResearch questions:\n");
    r.append(research_questions.as_str());
    r.append("\n\nPrevious section continuity notes:\n");
    r.append(continuity.as_str());
    r.append("\n\nEarlier fragments already drafted for this same section:\n");
    r.append(prior_fragments.as_str());
    r.append("\n\nEvidence dossier to use silently:\n");
    r.append(source_dossier.as_str());
    r.append(
        "\n\n⚠️ HARD REQUIREMENTS (violation = failure):\n\
        - Begin your response with the VERY FIRST SENTENCE of finished academic prose. Not a plan. Not a label. Not a check.\n\
        - NEVER output ANY of the following: outlines, planning notes, self-checks, word count estimates, quality checks, revision thoughts, constraint checks, labels like 'Opening:', 'Body:', 'Check:', 'Draft:', or any meta-commentary whatsoever\n\
        - Return ONLY connected academic prose paragraphs for this fragment\n\
        - Do not include the main section heading, a subsection heading, or labels such as \"Fragment 1\"\n\
        - Advance the argument from the earlier fragments instead of repeating their setup\n\
        - Write only polished paragraphs in final scholarly prose\n\
        - Do not echo the brief, source list, or planning memo\n\
        - Do not use bullets, numbering, checklists, or labels like \"Drafting:\", \"Paragraph 1:\", or \"Word count check:\"\n\
        - Do not include editor notes, self-evaluation, or meta commentary\n\
        - Use the requested reference style for in-text citations\n\
        - Return only the completed fragment",
    );
    r
}

/// What a model is asked to mend in a refused part of a section.
pub open spec fn part_revision_prompt(
    c: ContextView,
    b: BlueprintView,
    p: PartView,
    done: Seq<Seq<char>>,
    draft: Seq<char>,
    failure: Seq<char>,
) -> Seq<char> {
    "Rewrite the prose fragment below so it can be stitched into a final academic section.\n\n\
        Topic: "@
        + c.topic
        + "\nDeliverable: "@
        + c.tier.deliverable()
        + "\nTitle: "@
        + c.plan.title
        + "\nTier: "@
        + c.tier.name()
        + "\nReference style: "@
        + c.reference_style.name()
        + "\nParent section heading: "@
        + b.heading
        + "\nFragment focus: "@
        + p.label
        + "\nFragment brief: "@
        + p.brief
        + "\nMinimum acceptable fragment length: "@
        + numbers::decimal(blueprint::part_floor(p.target_words) as nat)
        + " words\nMinimum in-text citations in this fragment: "@
        + numbers::decimal(p.minimum_citations as nat)
        + "\nProblems found in the previous fragment draft: "@
        + rendering::or_else(failure, "The fragment did not satisfy the quality bar."@)
        + "\n\nEarlier fragments already drafted for this same section:\n"@
        + rendering::earlier_parts(done)
        + "\n\nEvidence dossier to use silently:\n"@
        + rendering::dossier(c.sources)
        + "\n\nPrevious fragment draft to fix:\n"@
        + draft
        + "\n\nHard requirements:\n\
        - Return only corrected academic prose paragraphs for this fragment\n\
        - Do not include headings, bullets, numbering, labels, editor notes, or prompt echoes\n\
        - Convert every outline fragment into full prose and smooth the transition from earlier fragments\n\
        - Expand the fragment until it meets the length requirement\n\
        - Use the requested in-text citation style and add enough citations to meet the minimum\n\
        - Return only the corrected fragment"@
}

/// What a model is asked to mend in a refused part of a section.
pub fn build_section_part_revision_prompt(
    context: &SectionGenerationContext,
    blueprint: &SectionBlueprint,
    part: &SectionPartBlueprint,
    completed_parts: &Vec<String>,
    prior_draft: &str,
    failure_summary: &str,
) -> (r: String)
    requires
        part.target_words * blueprint::SECTION_PART_WORD_FLOOR_PERCENT <= usize::MAX,
    ensures
        r@ == part_revision_prompt(
            context@,
            blueprint@,
            part@,
            text::views(completed_parts@),
            prior_draft@,
            failure_summary@,
        ),
{
    let failure_summary = rendering::copy_or(failure_summary, "The fragment did not satisfy the quality bar.");
    let prior_fragments = rendering::render_section_part_previews(completed_parts);
    let source_dossier = rendering::render_source_dossier(context.sources);
    let mut r = text::copy(
        "Rewrite the prose fragment below so it can be stitched into a final academic section.\n\n\
        Topic: ",
    );
    r.append(context.topic);
    r.append("\nDeliverable: ");
    r.append(context.tier.deliverable_name());
    r.append("\nTitle: ");
    r.append(context.plan.title.as_str());
    r.append("\nTier: ");
    r.append(context.tier.label());
    r.append("\nReference style: ");
    r.append(context.reference_style.label());
    r.append("\nParent section heading: ");
    r.append(blueprint.heading);
    r.append("\nFragment focus: ");
    r.append(part.label);
    r.append("\nFragment brief: ");
    r.append(part.brief);
    r.append("\nMinimum acceptable fragment length: ");
    numbers::push_decimal(&mut r, blueprint::minimum_words_for_section_part(part) as u64);
    r.append(" words\nMinimum in-text citations in this fragment: ");
    numbers::push_decimal(&mut r, part.minimum_citations as u64);
    r.append("\nProblems found in the previous fragment draft: ");
    r.append(failure_summary.as_str());
    r.append("\n\nEarlier fragments already drafted for this same section:\n");
    r.append(prior_fragments.as_str());
    r.append("\n\nEvidence dossier to use silently:\n");
    r.append(source_dossier.as_str());
    r.append("\n\nPrevious fragment draft to fix:\n");
    r.append(prior_draft);
    r.append(
        "\n\nHard requirements:\n\
        - Return only corrected academic prose paragraphs for this fragment\n\
        - Do not include headings, bullets, numbering, labels, editor notes, or prompt echoes\n\
        - Convert every outline fragment into full prose and smooth the transition from earlier fragments\n\
        - Expand the fragment until it meets the length requirement\n\
        - Use the requested in-text citation style and add enough citations to meet the minimum\n\
        - Return only the corrected fragment",
    );
    r
}

/// What a model is asked to mend in a refused section.
pub open spec fn section_revision_prompt(
    c: ContextView,
    b: BlueprintView,
    draft: Seq<char>,
    failure: Seq<char>,
) -> Seq<char> {
    "Rewrite the draft below into a publishable academic section.\n\nTopic: "@
        + c.topic
        + "\nDeliverable: "@
        + c.tier.deliverable()
        + "\nTitle: "@
        + c.plan.title
        + "\nTier: "@
        + c.tier.name()
        + "\nReference style: "@
        + c.reference_style.name()
        + "\nSection heading: "@
        + b.heading
        + "\nMinimum acceptable length: "@
        + numbers::decimal(blueprint::section_floor(b.target_words) as nat)
        + " words\nMinimum in-text citations: "@
        + numbers::decimal(b.minimum_citations as nat)
        + "\nProblems found in the previous draft: "@
        + rendering::or_else(failure, "The draft did not satisfy the quality bar."@)
        + "\n\nEvidence dossier to use silently:\n"@
        + rendering::dossier(c.sources)
        + "\n\nPrevious draft to fix:\n"@
        + draft
        + "\n\nHard requirements:\n- Keep the heading as \"## "@
        + b.heading
        + "\"\n\
        - Smooth any seams or repetition created by stitching together shorter draft fragments\n\
        - Convert every outline fragment into full academic prose\n\
        - Remove bullets, numbering, labels, editorial notes, and prompt echoes\n\
        - Expand the content until it meets the length requirement\n\
        - Use the requested in-text citation style and add enough citations to meet the minimum\n\
        - Return only the corrected section"@
}

/// What a model is asked to mend in a refused section.
pub fn build_section_revision_prompt(
    context: &SectionGenerationContext,
    blueprint: &SectionBlueprint,
    prior_draft: &str,
    failure_summary: &str,
) -> (r: String)
    requires
        blueprint.target_words * blueprint::SECTION_WORD_FLOOR_PERCENT <= usize::MAX,
    ensures
        r@ == section_revision_prompt(
            context@,
            blueprint@,
            prior_draft@,
            failure_summary@,
        ),
{
    let failure_summary = rendering::copy_or(failure_summary, "The draft did not satisfy the quality bar.");
    let source_dossier = rendering::render_source_dossier(context.sources);
    let mut r = text::copy(
        "Rewrite the draft below into a publishable academic section.\n\nTopic: ",
    );
    r.append(context.topic);
    r.append("\nDeliverable: ");
    r.append(context.tier.deliverable_name());
    r.append("\nTitle: ");
    r.append(context.plan.title.as_str());
    r.append("\nTier: ");
    r.append(context.tier.label());
    r.append("\nReference style: ");
    r.append(context.reference_style.label());
    r.append("\nSection heading: ");
    r.append(blueprint.heading);
    r.append("\nMinimum acceptable length: ");
    numbers::push_decimal(&mut r, blueprint::minimum_words_for_section(blueprint) as u64);
    r.append(" words\nMinimum in-text citations: ");
    numbers::push_decimal(&mut r, blueprint.minimum_citations as u64);
    r.append("\nProblems found in the previous draft: ");
    r.append(failure_summary.as_str());
    r.append("\n\nEvidence dossier to use silently:\n");
    r.append(source_dossier.as_str());
    r.append("\n\nPrevious draft to fix:\n");
    r.append(prior_draft);
    r.append("\n\nHard requirements:\n- Keep the heading as \"## ");
    r.append(blueprint.heading);
    r.append(
        "\"\n\
        - Smooth any seams or repetition created by stitching together shorter draft fragments\n\
        - Convert every outline fragment into full academic prose\n\
        - Remove bullets, numbering, labels, editorial notes, and prompt echoes\n\
        - Expand the content until it meets the length requirement\n\
        - Use the requested in-text citation style and add enough citations to meet the minimum\n\
        - Return only the corrected section",
    );
    r
}

/// What a model is asked as the editor of a section.
pub open spec fn section_review_prompt(
    c: ContextView,
    b: BlueprintView,
    draft: Seq<char>,
) -> Seq<char> {
    "Act as a strict academic editor. Clean and strengthen the section below before publication.\n\n\
        Topic: "@
        + c.topic
        + "\nTitle: "@
        + c.plan.title
        + "\nReference style: "@
        + c.reference_style.name()
        + "\nSection heading: "@
        + b.heading
        + "\nMinimum acceptable length: "@
        + numbers::decimal(blueprint::section_floor(b.target_words) as nat)
        + " words\nMinimum in-text citations: "@
        + numbers::decimal(b.minimum_citations as nat)
        + "\n\nDraft:\n"@
        + draft
        + "\n\nEditorial goals:\n\
        - Preserve the intended argument while rewriting weak or outline-like material into full paragraphs\n\
        - Smooth transitions so the section reads as one continuous finished chapter rather than stitched fragments\n\
        - Remove any bullets, numbering, labels, duplicated prompts, or self-referential text\n\
        - Ensure the output reads like final academic prose, not notes\n\
        - Keep the heading as \"## "@
        + b.heading
        + "\"\n- Return only the cleaned section"@
}

/// What a model is asked as the editor of a section.
pub fn build_section_review_prompt(
    context: &SectionGenerationContext,
    blueprint: &SectionBlueprint,
    draft: &str,
) -> (r: String)
    requires
        blueprint.target_words * blueprint::SECTION_WORD_FLOOR_PERCENT <= usize::MAX,
    ensures
        r@ == section_review_prompt(
            context@,
            blueprint@,
            draft@,
        ),
{
    let mut r = text::copy(
        "Act as a strict academic editor. Clean and strengthen the section below before publication.\n\n\
        Topic: ",
    );
    r.append(context.topic);
    r.append("\nTitle: ");
    r.append(context.plan.title.as_str());
    r.append("\nReference style: ");
    r.append(context.reference_style.label());
    r.append("\nSection heading: ");
    r.append(blueprint.heading);
    r.append("\nMinimum acceptable length: ");
    numbers::push_decimal(&mut r, blueprint::minimum_words_for_section(blueprint) as u64);
    r.append(" words\nMinimum in-text citations: ");
    numbers::push_decimal(&mut r, blueprint.minimum_citations as u64);
    r.append("\n\nDraft:\n");
    r.append(draft);
    r.append(
        "\n\nEditorial goals:\n\
        - Preserve the intended argument while rewriting weak or outline-like material into full paragraphs\n\
        - Smooth transitions so the section reads as one continuous finished chapter rather than stitched fragments\n\
        - Remove any bullets, numbering, labels, duplicated prompts, or self-referential text\n\
        - Ensure the output reads like final academic prose, not notes\n\
        - Keep the heading as \"## ",
    );
    r.append(blueprint.heading);
    r.append("\"\n- Return only the cleaned section");
    r
}

/// What a model is asked as the editor of a part of a section.
pub open spec fn part_review_prompt(
    c: ContextView,
    b: BlueprintView,
    p: PartView,
    draft: Seq<char>,
) -> Seq<char> {
    "Act as a strict academic editor. Clean and strengthen the prose fragment below before it is stitched into a larger section.\n\n\
        Topic: "@
        + c.topic
        + "\nTitle: "@
        + c.plan.title
        + "\nReference style: "@
        + c.reference_style.name()
        + "\nParent section heading: "@
        + b.heading
        + "\nFragment focus: "@
        + p.label
        + "\nMinimum acceptable fragment length: "@
        + numbers::decimal(blueprint::part_floor(p.target_words) as nat)
        + " words\nMinimum in-text citations in this fragment: "@
        + numbers::decimal(p.minimum_citations as nat)
        + "\n\nDraft:\n"@
        + draft
        + "\n\nEditorial goals:\n\
        - Preserve the argument while rewriting any outline-like material into full paragraph prose\n\
        - Remove bullets, numbering, headings, labels, duplicated prompts, and self-referential text\n\
        - Ensure the output reads like final academic prose that can slot into the larger section without obvious seams\n\
        - Return only the cleaned prose fragment"@
}

/// What a model is asked as the editor of a part of a section.
pub fn build_section_part_review_prompt(
    context: &SectionGenerationContext,
    blueprint: &SectionBlueprint,
    part: &SectionPartBlueprint,
    draft: &str,
) -> (r: String)
    requires
        part.target_words * blueprint::SECTION_PART_WORD_FLOOR_PERCENT <= usize::MAX,
    ensures
        r@ == part_review_prompt(
            context@,
            blueprint@,
            part@,
            draft@,
        ),
{
    let mut r = text::copy(
        "Act as a strict academic editor. Clean and strengthen the prose fragment below before it is stitched into a larger section.\n\n\
        Topic: ",
    );
    r.append(context.topic);
    r.append("\nTitle: ");
    r.append(context.plan.title.as_str());
    r.append("\nReference style: ");
    r.append(context.reference_style.label());
    r.append("\nParent section heading: ");
    r.append(blueprint.heading);
    r.append("\nFragment focus: ");
    r.append(part.label);
    r.append("\nMinimum acceptable fragment length: ");
    numbers::push_decimal(&mut r, blueprint::minimum_words_for_section_part(part) as u64);
    r.append(" words\nMinimum in-text citations in this fragment: ");
    numbers::push_decimal(&mut r, part.minimum_citations as u64);
    r.append("\n\nDraft:\n");
    r.append(draft);
    r.append(
        "\n\nEditorial goals:\n\
        - Preserve the argument while rewriting any outline-like material into full paragraph prose\n\
        - Remove bullets, numbering, headings, labels, duplicated prompts, and self-referential text\n\
        - Ensure the output reads like final academic prose that can slot into the larger section without obvious seams\n\
        - Return only the cleaned prose fragment",
    );
    r
}

/// What a model is asked for the bibliography.
pub open spec fn references_prompt(
    c: ReportContextView,
    list: Seq<SectionView>,
) -> Seq<char> {
    "Compile the references section for the completed "@
        + c.tier.deliverable()
        + " below.\n\nTopic: "@
        + c.topic
        + "\nTitle: "@
        + c.plan.title
        + "\nTier: "@
        + c.tier.name()
        + "\nReference style: "@
        + c.reference_style.name()
        + "\nCitation target: "@
        + numbers::decimal(c.tier.citations() as nat)
        + "\n\nEvidence dossier:\n"@
        + rendering::dossier(c.sources)
        + "\n\nExisting sections:\n"@
        + pieces::join(sections::section_texts(list), "\n\n"@)
        + "\n\nReturn only a markdown section beginning with \"## "@
        + c.reference_style.heading()
        + "\".\nUse "@
        + c.reference_style.name()
        + " as closely as possible.\n\
        Prefer the provided sources and avoid inventing DOIs or publication details you do not know.\n\
        Each reference should appear on its own paragraph or line."@
}

/// What a model is asked for the bibliography.
pub fn build_references_prompt(
    report_context: &ReportContext,
    list: &Vec<ResearchSection>,
) -> (r: String)
    ensures
        r@ == references_prompt(
            report_context@,
            models::section_views(list@),
        ),
{
    let source_dossier = rendering::render_source_dossier(report_context.sources);
    let sections_text = sections::render_existing_sections(list);
    let mut r = text::copy("Compile the references section for the completed ");
    r.append(report_context.tier.deliverable_name());
    r.append(" below.\n\nTopic: ");
    r.append(report_context.topic);
    r.append("\nTitle: ");
    r.append(report_context.plan.title.as_str());
    r.append("\nTier: ");
    r.append(report_context.tier.label());
    r.append("\nReference style: ");
    r.append(report_context.reference_style.label());
    r.append("\nCitation target: ");
    numbers::push_decimal(&mut r, report_context.tier.citation_target() as u64);
    r.append("\n\nEvidence dossier:\n");
    r.append(source_dossier.as_str());
    r.append("\n\nExisting sections:\n");
    r.append(sections_text.as_str());
    r.append("\n\nReturn only a markdown section beginning with \"## ");
    r.append(report_context.reference_style.bibliography_heading());
    r.append("\".\nUse ");
    r.append(report_context.reference_style.label());
    r.append(
        " as closely as possible.\n\
        Prefer the provided sources and avoid inventing DOIs or publication details you do not know.\n\
        Each reference should appear on its own paragraph or line.",
    );
    r
}

/// What a model is asked for the plan of a report.
pub open spec fn plan_prompt(
    topic: Seq<char>,
    tier: ResearchTier,
    style: ReferenceStyle,
    spec: DocumentView,
    list: Seq<SourceView>,
) -> Seq<char> {
    "Prepare a plan for a "@
        + spec.deliverable
        + " on the topic below.\n\nTopic: "@
        + topic
        + "\nTier: "@
        + tier.name()
        + "\nReference style: "@
        + style.name()
        + "\nCitation target: "@
        + numbers::decimal(tier.citations() as nat)
        + "\nMinimum word count: "@
        + numbers::decimal(spec.minimum_words as nat)
        + "\n\nEvidence dossier:\n"@
        + rendering::dossier(list)
        + "\n\nReturn ONLY valid JSON with these keys and no markdown:\n{\n\
        \"title\": \"specific scholarly title\",\n\
        \"thesis\": \"one-sentence central argument\",\n\
        \"methodology\": \"2-3 sentence methodology statement\",\n\
        \"research_questions\": [\"3 to 5 concise questions\"],\n\
        \"keywords\": [\"5 to 8 keywords\"],\n\
        \"writing_guidance\": \"short paragraph explaining the argumentative arc and how to use the evidence\"\n\
        }"@
}

/// What a model is asked for the plan of a report.
pub fn build_research_plan_prompt(
    topic: &str,
    tier: &ResearchTier,
    reference_style: &ReferenceStyle,
    spec: &DocumentSpec,
    list: &Vec<ResearchSource>,
) -> (r: String)
    ensures
        r@ == plan_prompt(
            topic@,
            *tier,
            *reference_style,
            spec@,
            models::source_views(list@),
        ),
{
    let source_dossier = rendering::render_source_dossier(list);
    let mut r = text::copy("Prepare a plan for a ");
    r.append(spec.deliverable);
    r.append(" on the topic below.\n\nTopic: ");
    r.append(topic);
    r.append("\nTier: ");
    r.append(tier.label());
    r.append("\nReference style: ");
    r.append(reference_style.label());
    r.append("\nCitation target: ");
    numbers::push_decimal(&mut r, tier.citation_target() as u64);
    r.append("\nMinimum word count: ");
    numbers::push_decimal(&mut r, spec.minimum_words as u64);
    r.append("\n\nEvidence dossier:\n");
    r.append(source_dossier.as_str());
    r.append(
        "\n\nReturn ONLY valid JSON with these keys and no markdown:\n{\n\
        \"title\": \"specific scholarly title\",\n\
        \"thesis\": \"one-sentence central argument\",\n\
        \"methodology\": \"2-3 sentence methodology statement\",\n\
        \"research_questions\": [\"3 to 5 concise questions\"],\n\
        \"keywords\": [\"5 to 8 keywords\"],\n\
        \"writing_guidance\": \"short paragraph explaining the argumentative arc and how to use the evidence\"\n\
        }",
    );
    r
}

/// What a model is asked for a brief.
pub open spec fn brief_prompt(
    topic: Seq<char>,
    list: Seq<SourceView>,
) -> Seq<char> {
    "User topic:\n"@
        + topic
        + "\n\nEvidence pack:\n"@
        + rendering::packets_text(list)
        + "\n\nSource mix summary:\n- Total sources: "@
        + numbers::decimal(list.len())
        + "\n- Public-domain books with legal download links: "@
        + numbers::decimal(list.filter(rendering::public_domain_test()).len())
        + "\n- Treat Reddit/public social discussion as directional, not definitive.\n\n\
        Write the WhatsApp-ready research brief now."@
}

/// What a model is asked for a brief.
pub fn build_whatsapp_brief_prompt(
    topic: &str,
    list: &Vec<ResearchSource>,
) -> (r: String)
    ensures
        r@ == brief_prompt(
            topic@,
            models::source_views(list@),
        ),
{
    assert(models::source_views(list@).len() == list@.len());
    let source_packets = rendering::render_whatsapp_source_packets(list);
    let mut r = text::copy("User topic:\n");
    r.append(topic);
    r.append("\n\nEvidence pack:\n");
    r.append(source_packets.as_str());
    r.append("\n\nSource mix summary:\n- Total sources: ");
    numbers::push_decimal(&mut r, list.len() as u64);
    r.append("\n- Public-domain books with legal download links: ");
    numbers::push_decimal(&mut r, rendering::count_public_domain_books(list) as u64);
    r.append(
        "\n- Treat Reddit/public social discussion as directional, not definitive.\n\n\
        Write the WhatsApp-ready research brief now.",
    );
    r
}

/// What a model is asked to make of a question that follows on others.
pub open spec fn reformulation_prompt(
    history: Seq<Seq<char>>,
    query: Seq<char>,
) -> Seq<char> {
    "Conversation history:\n"@
        + pieces::join(numbered(history), "\n"@)
        + "\n\nNew follow-up question: "@
        + query
        + "\n\nRewrite the follow-up into a self-contained research query:"@
}

/// What a model is asked to make of a question that follows on others.
pub fn build_reformulation_prompt(
    history: &Vec<String>,
    new_query: &str,
) -> (r: String)
    ensures
        r@ == reformulation_prompt(
            text::views(history@),
            new_query@,
        ),
{
    let history_block = number_lines(history);
    let mut r = text::copy("Conversation history:\n");
    r.append(history_block.as_str());
    r.append("\n\nNew follow-up question: ");
    r.append(new_query);
    r.append("\n\nRewrite the follow-up into a self-contained research query:");
    r
}

// Plans without a model

/// The plan of a report for which there is no other.
pub open spec fn plain_plan(topic: Seq<char>, tier: ResearchTier, spec: DocumentView) -> PlanView {
    let t = trim::trim(topic);
    PlanView {
        title: "A Research Study on "@ + t,
        thesis: "This "@ + spec.deliverable + " argues that "@ + t
            + " should be examined through a rigorous synthesis of current evidence, competing interpretations, and context-specific implications."@,
        methodology: "This document adopts a structured qualitative synthesis of the retrieved evidence, using comparative reading and thematic analysis to identify recurring claims, tensions, and implications."@,
        research_questions: seq![
            "What is the core problem or opportunity embedded in "@ + t + "?"@,
            "How do the retrieved sources converge or diverge in their interpretation of the issue?"@,
            "What practical and scholarly implications emerge from the available evidence?"@,
        ],
        keywords: seq![
            t,
            tier.name(),
            "evidence synthesis"@,
            "academic analysis"@,
            "research writing"@,
        ],
        writing_guidance: "Move from context to critique, then to evidence-led interpretation and grounded recommendations. Keep the prose formal, cohesive, and citation-aware."@,
    }
}

/// The plan of a report for which there is no other.
pub fn fallback_research_plan(topic: &str, tier: &ResearchTier, spec: &DocumentSpec) -> (r:
    ResearchPlan)
    ensures
        r@ == plain_plan(topic@, *tier, spec@),
{
    let t = trim::trimmed(topic);
    let mut title = text::copy("A Research Study on ");
    title.append(t.as_str());
    let mut thesis = text::copy("This ");
    thesis.append(spec.deliverable);
    thesis.append(" argues that ");
    thesis.append(t.as_str());
    thesis.append(
        " should be examined through a rigorous synthesis of current evidence, competing interpretations, and context-specific implications.",
    );
    let mut question = text::copy("What is the core problem or opportunity embedded in ");
    question.append(t.as_str());
    question.append("?");
    let research_questions = vec![
        question,
        text::copy(
            "How do the retrieved sources converge or diverge in their interpretation of the issue?",
        ),
        text::copy(
            "What practical and scholarly implications emerge from the available evidence?",
        ),
    ];
    let keywords = vec![
        t,
        text::copy(tier.label()),
        text::copy("evidence synthesis"),
        text::copy("academic analysis"),
        text::copy("research writing"),
    ];
    let ghost expected = plain_plan(topic@, *tier, spec@);
    assert(text::views(research_questions@) =~= expected.research_questions);
    assert(text::views(keywords@) =~= expected.keywords);
    ResearchPlan {
        title,
        thesis,
        methodology: text::copy(
            "This document adopts a structured qualitative synthesis of the retrieved evidence, using comparative reading and thematic analysis to identify recurring claims, tensions, and implications.",
        ),
        research_questions,
        keywords,
        writing_guidance: text::copy(
            "Move from context to critique, then to evidence-led interpretation and grounded recommendations. Keep the prose formal, cohesive, and citation-aware.",
        ),
    }
}

// Questions that follow on others

pub open spec fn numbered(history: Seq<Seq<char>>) -> Seq<Seq<char>> {
    Seq::new(history.len(), |i: int| rendering::ordinal(i) + ". "@ + history[i])
}

fn number_lines(history: &Vec<String>) -> (r: String)
    ensures
        r@ == pieces::join(numbered(text::views(history@)), "\n"@),
{
    let ghost all = text::views(history@);
    let mut lines: Vec<String> = Vec::new();
    let mut i: usize = 0;
    assert(text::views(lines@) =~= numbered(all).take(0));
    while i < history.len()
        invariant
            i <= history@.len(),
            all == text::views(history@),
            text::views(lines@) == numbered(all).take(i as int),
        decreases history@.len() - i,
    {
        assert(all[i as int] == history@[i as int]@);
        let mut line = numbers::decimal_text(i + 1);
        line.append(". ");
        line.append(history[i].as_str());
        assert(numbered(all).take(i + 1) =~= numbered(all).take(i as int).push(line@));
        lines.push(line);
        i += 1;
    }
    assert(numbered(all).take(i as int) =~= numbered(all));
    pieces::joined(&lines, "\n")
}

/// The question to research, given what a model made of it: the rewritten one where it is neither
/// empty nor longer than 500 bytes, else the question itself.
pub open spec fn resolved_query(query: Seq<char>, rewritten: Option<Seq<char>>) -> Seq<char> {
    match rewritten {
        Some(t) => if trim::trim(t).len() == 0 || bytes::byte_len(trim::trim(t)) > 500 {
            query
        } else {
            trim::trim(t)
        },
        None => query,
    }
}

/// What a model is asked about a question, where others came before it.
pub fn reformulation_request(history: &Vec<String>, new_query: &str) -> (r: Option<String>)
    ensures
        r is None <==> history@.len() == 0,
        r matches Some(p) ==> p@ == reformulation_prompt(text::views(history@), new_query@),
{
    if history.len() == 0 {
        return None;
    }
    Some(build_reformulation_prompt(history, new_query))
}

/// The question to research, given what a model made of it.
pub fn reformulate_query(new_query: &str, rewritten: &Option<String>) -> (r: String)
    ensures
        r@ == resolved_query(new_query@, text::opt_view(*rewritten)),
{
    match rewritten {
        Some(t) => {
            let trimmed = trim::trimmed(t.as_str());
            if trimmed.as_str().is_empty() || bytes::byte_length(trimmed.as_str()) > 500 {
                text::copy(new_query)
            } else {
                trimmed
            }
        },
        None => text::copy(new_query),
    }
}

} // verus!
