//! Drafting a section: what a model is asked for, and what its replies become.

use crate::blueprint::{BlueprintView, DocumentView, PartView};
use crate::drafting;
use crate::drafting::{PartStepView, PartWorkView, SectionStepView, SectionWorkView};
use crate::laws::finding;
use crate::models::{ReferenceStyle, ResearchTier, SectionView, SourceView};
use crate::numbers;
use crate::outline;
use crate::pieces;
use crate::prompts;
use crate::prompts::ContextView;
use crate::quality;
use crate::rendering;
use crate::rendering::ReportContextView;
use crate::sections;
use crate::text;
use crate::trim;
use vstd::prelude::*;

verus! {

broadcast use finding::group_holds;

// Parts

/// The first reply on a part is its draft, as prose, and goes to the editor.
#[verifier::rlimit(40)]
pub proof fn law_drafts_go_to_the_editor(
    w: PartWorkView,
    c: ContextView,
    b: BlueprintView,
    p: PartView,
    done: Seq<Seq<char>>,
    raw: Seq<char>,
)
    requires
        w.draft is None,
        outline::converts(sections::part(raw)),
    ensures
        ({
            let draft = outline::prose(sections::part(raw));
            &&& drafting::part_step(w, b, p, raw) matches PartStepView::Continue { work }
            &&& work.draft == Some(draft)
            &&& work.attempt == w.attempt
            &&& work.working == w.working
            &&& work.failure == w.failure
            &&& text::contains(
                drafting::part_request(work, c, b, p, done).prompt,
                "\n\nDraft:\n"@ + draft,
            )
            &&& drafting::part_request(work, c, b, p, done).temperature_percent == 15
        }),
{
    let draft = outline::prose(sections::part(raw));
    lemma_part_review(c, b, p, draft);
}

/// The editor's reply on a part is the part, as prose, where it meets every gate. Where it does not,
/// the part is written anew with what was refused and why in view, up to three times; then the
/// section is given up, and the error tells which part failed and why.
#[verifier::rlimit(40)]
pub proof fn law_edited_parts_are_taken(
    w: PartWorkView,
    c: ContextView,
    b: BlueprintView,
    p: PartView,
    done: Seq<Seq<char>>,
    raw: Seq<char>,
)
    requires
        w.draft is Some,
        outline::converts(sections::part(raw)),
    ensures
        ({
            let edited = outline::prose(sections::part(raw));
            let found = quality::part_assessment(edited, p);
            let step = drafting::part_step(w, b, p, raw);
            &&& found.is_accepted() <==> step == (PartStepView::Done { text: edited })
            &&& !found.is_accepted() && w.attempt < 2 ==> {
                &&& step matches PartStepView::Continue { work }
                &&& work.attempt == w.attempt + 1
                &&& work.working == Some(edited)
                &&& work.failure == pieces::join(found.reasons(), "; "@)
                &&& work.draft is None
                &&& text::contains(
                    drafting::part_request(work, c, b, p, done).prompt,
                    "\n\nPrevious fragment draft to fix:\n"@ + edited,
                )
                &&& work.failure.len() > 0 ==> text::contains(
                    drafting::part_request(work, c, b, p, done).prompt,
                    "\nProblems found in the previous fragment draft: "@ + work.failure,
                )
                &&& drafting::part_request(work, c, b, p, done).temperature_percent == 18
            }
            &&& !found.is_accepted() && w.attempt >= 2 ==> {
                &&& step matches PartStepView::Failed { error }
                &&& text::contains(error, "Section '"@ + b.heading)
                &&& text::contains(error, "' fragment '"@ + p.label)
                &&& text::contains(error, " attempts: "@ + pieces::join(found.reasons(), "; "@))
            }
        }),
{
    let edited = outline::prose(sections::part(raw));
    let failure = quality::reasons_text(quality::part_assessment(edited, p).reasons());
    lemma_part_revision(c, b, p, done, edited, failure);
}

/// Work on a part begins with a prompt for that part.
pub proof fn law_parts_begin(
    c: ContextView,
    b: BlueprintView,
    p: PartView,
    done: Seq<Seq<char>>,
)
    ensures
        ({
            let r = drafting::part_request(drafting::fresh_part(), c, b, p, done);
            &&& r.kind is Prose
            &&& r.temperature_percent == 30
            &&& r.system == prompts::PROFESSOR_SYSTEM_PROMPT@
            &&& r.prompt == prompts::part_prompt(c, b, p, done)
            &&& 768 <= r.max_output_tokens <= 4096
            &&& 768 <= 2 * p.target_words <= 4096 ==> r.max_output_tokens == 2 * p.target_words
        }),
{
}

// Sections

/// A part that is done is kept behind those before it, and the next part is asked for; after the
/// last part they are put together under the heading, and the section is judged.
pub proof fn law_done_parts_are_kept(
    w: SectionWorkView,
    c: ContextView,
    b: BlueprintView,
    raw: Seq<char>,
    t: Seq<char>,
)
    requires
        w.revision is None,
        w.parts.len() < b.parts.len(),
        drafting::part_step(w.part, b, b.parts[w.parts.len() as int], raw) == (
        PartStepView::Done { text: t }),
    ensures
        ({
            let k = w.parts.len() as int;
            let step = drafting::section_step(w, b, raw);
            &&& k + 1 < b.parts.len() ==> {
                &&& step matches SectionStepView::Continue { work }
                &&& work.parts == w.parts.push(t)
                &&& work.revision is None
                &&& drafting::section_request(work, c, b).prompt == prompts::part_prompt(
                    c,
                    b,
                    b.parts[k + 1],
                    w.parts.push(t),
                )
            }
            &&& k + 1 >= b.parts.len() ==> match step {
                SectionStepView::Continue { work } => {
                    let content = stitched(b, w.parts.push(t));
                    let found = quality::assessment(content, b);
                    &&& !found.is_accepted()
                    &&& work.revision is Some
                    &&& work.revision->0.attempt == 1
                    &&& work.revision->0.draft == content
                    &&& work.revision->0.failure == pieces::join(found.reasons(), "; "@)
                },
                SectionStepView::Done { section } => {
                    let content = stitched(b, w.parts.push(t));
                    &&& quality::assessment(content, b).is_accepted()
                    &&& section.content == content
                    &&& section.heading == b.heading
                    &&& section.target_words == b.target_words
                    &&& section.actual_words == quality::word_count(content)
                },
                SectionStepView::Failed { .. } => false,
                SectionStepView::Stuck => true,
            }
        }),
{
}

/// A section with parts begins with the first of them.
pub proof fn law_sections_begin(c: ContextView, b: BlueprintView)
    requires
        b.parts.len() > 0,
    ensures
        drafting::section_start(b) matches SectionStepView::Continue { work } && work.parts.len()
            == 0 && work.revision is None && drafting::section_request(work, c, b).prompt
            == prompts::part_prompt(c, b, b.parts[0], work.parts),
{
}

/// The text of a section of these parts, as prose under its heading.
pub open spec fn stitched(b: BlueprintView, parts: Seq<Seq<char>>) -> Seq<char> {
    let seed = sections::normalized(sections::assembled(b.heading, parts), b.heading);
    sections::section_prose(sections::section_prose(seed, b.heading), b.heading)
}

/// Until its part is done a section works on that part, and fails where the part fails.
pub proof fn law_sections_work_on_their_parts(
    w: SectionWorkView,
    c: ContextView,
    b: BlueprintView,
    raw: Seq<char>,
)
    requires
        w.revision is None,
        w.parts.len() < b.parts.len(),
    ensures
        ({
            let p = b.parts[w.parts.len() as int];
            &&& drafting::section_request(w, c, b) == drafting::part_request(
                w.part,
                c,
                b,
                p,
                w.parts,
            )
            &&& drafting::part_step(w.part, b, p, raw) matches PartStepView::Continue { work }
                ==> drafting::section_step(w, b, raw) == (SectionStepView::Continue {
                work: SectionWorkView { parts: w.parts, part: work, revision: None },
            })
            &&& drafting::part_step(w.part, b, p, raw) matches PartStepView::Failed { error }
                ==> drafting::section_step(w, b, raw) == (SectionStepView::Failed { error })
        }),
{
}

/// A reply on a section under revision is the section, as prose under its heading, where it meets
/// every gate; where it does not and was the fourth draft, the section is given up, and the error
/// tells which section failed and why.
pub proof fn law_revised_drafts_are_judged(
    w: SectionWorkView,
    b: BlueprintView,
    raw: Seq<char>,
)
    requires
        w.revision is Some,
        sections::section_converts(sections::normalized(raw, b.heading), b.heading),
    ensures
        ({
            let r = w.revision->0;
            let content = sections::section_prose(
                sections::normalized(raw, b.heading),
                b.heading,
            );
            let found = quality::assessment(content, b);
            let step = drafting::section_step(w, b, raw);
            &&& found.is_accepted() <==> step is Done
            &&& found.is_accepted() ==> step == (SectionStepView::Done {
                section: SectionView {
                    heading: b.heading,
                    target_words: b.target_words,
                    actual_words: quality::word_count(content),
                    content,
                },
            })
            &&& !found.is_accepted() && r.attempt >= 3 ==> {
                &&& step matches SectionStepView::Failed { error }
                &&& text::contains(error, "Section '"@ + b.heading)
                &&& text::contains(error, " attempts: "@ + pieces::join(found.reasons(), "; "@))
            }
        }),
{
    let content = sections::section_prose(sections::normalized(raw, b.heading), b.heading);
    lemma_section_error(b, quality::reasons_text(quality::assessment(content, b).reasons()));
}

proof fn lemma_section_error(b: BlueprintView, failure: Seq<char>)
    ensures
        text::contains(drafting::section_error(b, failure), "Section '"@ + b.heading),
        text::contains(drafting::section_error(b, failure), " attempts: "@ + failure),
{
}

/// A section under revision that does not meet every gate is revised once more, up to four drafts,
/// with what was refused and why in view.
pub proof fn law_refused_drafts_are_revised(
    w: SectionWorkView,
    b: BlueprintView,
    raw: Seq<char>,
)
    requires
        w.revision is Some,
        w.revision->0.attempt < 3,
        sections::section_converts(sections::normalized(raw, b.heading), b.heading),
        !quality::assessment(
            sections::section_prose(sections::normalized(raw, b.heading), b.heading),
            b,
        ).is_accepted(),
    ensures
        ({
            let r = w.revision->0;
            let content = sections::section_prose(
                sections::normalized(raw, b.heading),
                b.heading,
            );
            let reasons = pieces::join(quality::assessment(content, b).reasons(), "; "@);
            &&& drafting::section_step(w, b, raw) matches SectionStepView::Continue { work }
            &&& work.revision is Some
            &&& work.revision->0.attempt == r.attempt + 1
            &&& work.revision->0.draft == content
            &&& work.revision->0.failure == reasons
        }),
{
}

/// Who revises a section sees its draft and what is wrong with it.
pub proof fn law_revisers_see_draft_and_reasons(
    w: SectionWorkView,
    c: ContextView,
    b: BlueprintView,
)
    requires
        w.revision is Some,
    ensures
        ({
            let r = w.revision->0;
            let request = drafting::section_request(w, c, b);
            &&& text::contains(request.prompt, "\n\nPrevious draft to fix:\n"@ + r.draft)
            &&& r.failure.len() > 0 ==> text::contains(
                request.prompt,
                "\nProblems found in the previous draft: "@ + r.failure,
            )
            &&& request.temperature_percent == 20
            &&& request.kind is Prose
            &&& request.system == prompts::PROFESSOR_SYSTEM_PROMPT@
            &&& request.max_output_tokens <= 8192
            &&& 2 * b.target_words <= 8192 ==> request.max_output_tokens == 2 * b.target_words
        }),
{
    lemma_section_revision(c, b, w.revision->0.draft, w.revision->0.failure);
}

// Prompts

proof fn lemma_part_review(c: ContextView, b: BlueprintView, p: PartView, draft: Seq<char>)
    ensures
        text::contains(prompts::part_review_prompt(c, b, p, draft), "\n\nDraft:\n"@ + draft),
{
}

proof fn lemma_part_revision(
    c: ContextView,
    b: BlueprintView,
    p: PartView,
    done: Seq<Seq<char>>,
    draft: Seq<char>,
    failure: Seq<char>,
)
    ensures
        ({
            let t = prompts::part_revision_prompt(c, b, p, done, draft, failure);
            &&& text::contains(t, "\n\nPrevious fragment draft to fix:\n"@ + draft)
            &&& failure.len() > 0 ==> text::contains(
                t,
                "\nProblems found in the previous fragment draft: "@ + failure,
            )
        }),
{
}

proof fn lemma_section_revision(
    c: ContextView,
    b: BlueprintView,
    draft: Seq<char>,
    failure: Seq<char>,
)
    ensures
        ({
            let t = prompts::section_revision_prompt(c, b, draft, failure);
            &&& text::contains(t, "\n\nPrevious draft to fix:\n"@ + draft)
            &&& failure.len() > 0 ==> text::contains(
                t,
                "\nProblems found in the previous draft: "@ + failure,
            )
        }),
{
}

/// The prompt for a part tells what is written about, what the part is for and how long it is, what
/// came before it and every source.
#[verifier::rlimit(40)]
pub proof fn law_part_prompts(
    c: ContextView,
    b: BlueprintView,
    p: PartView,
    done: Seq<Seq<char>>,
)
    ensures
        ({
            let t = prompts::part_prompt(c, b, p, done);
            &&& text::contains(t, c.topic)
            &&& text::contains(t, "\nDeliverable: "@ + c.tier.deliverable())
            &&& text::contains(t, "\nTitle: "@ + c.plan.title)
            &&& text::contains(t, "\nTier: "@ + c.tier.name())
            &&& text::contains(t, "\nReference style: "@ + c.reference_style.name())
            &&& text::contains(t, "\nCentral thesis: "@ + c.plan.thesis)
            &&& text::contains(t, "\nMethodology frame: "@ + c.plan.methodology)
            &&& text::contains(t, "\nKeywords: "@ + pieces::join(c.plan.keywords, ", "@))
            &&& text::contains(t, "\nParent section heading: "@ + b.heading)
            &&& text::contains(t, "\nParent section brief: "@ + b.brief)
            &&& text::contains(t, "\nFragment focus: "@ + p.label)
            &&& text::contains(t, "\nFragment brief: "@ + p.brief)
            &&& text::contains(
                t,
                "\nTarget fragment length: about "@ + numbers::decimal(p.target_words as nat),
            )
            &&& text::contains(
                t,
                " words\nMinimum acceptable fragment length: "@ + numbers::decimal(
                    (p.target_words * 30 / 100) as nat,
                ),
            )
            &&& text::contains(
                t,
                " words\nMinimum in-text citations in this fragment: "@ + numbers::decimal(
                    p.minimum_citations as nat,
                ),
            )
            &&& text::contains(t, "\nCitation guidance: "@ + b.citation_expectation)
            &&& text::contains(
                t,
                "\n\nResearch questions:\n"@ + rendering::questions_text(
                    c.plan.research_questions,
                ),
            )
            &&& text::contains(
                t,
                "\n\nPrevious section continuity notes:\n"@ + rendering::continuity(c.previous),
            )
            &&& text::contains(
                t,
                "\n\nEarlier fragments already drafted for this same section:\n"@
                    + rendering::earlier_parts(done),
            )
            &&& text::contains(
                t,
                "\n\nEvidence dossier to use silently:\n"@ + rendering::dossier(c.sources),
            )
        }),
{
}

/// The prompt for a part that is written anew tells the same of the part, and every source.
#[verifier::rlimit(40)]
pub proof fn law_part_revision_prompts(
    c: ContextView,
    b: BlueprintView,
    p: PartView,
    done: Seq<Seq<char>>,
    draft: Seq<char>,
    failure: Seq<char>,
)
    ensures
        ({
            let t = prompts::part_revision_prompt(c, b, p, done, draft, failure);
            &&& text::contains(t, c.topic)
            &&& text::contains(t, "\nDeliverable: "@ + c.tier.deliverable())
            &&& text::contains(t, "\nTitle: "@ + c.plan.title)
            &&& text::contains(t, "\nTier: "@ + c.tier.name())
            &&& text::contains(t, "\nReference style: "@ + c.reference_style.name())
            &&& text::contains(t, "\nParent section heading: "@ + b.heading)
            &&& text::contains(t, "\nFragment focus: "@ + p.label)
            &&& text::contains(t, "\nFragment brief: "@ + p.brief)
            &&& text::contains(
                t,
                "\nMinimum acceptable fragment length: "@ + numbers::decimal(
                    (p.target_words * 30 / 100) as nat,
                ),
            )
            &&& text::contains(
                t,
                " words\nMinimum in-text citations in this fragment: "@ + numbers::decimal(
                    p.minimum_citations as nat,
                ),
            )
            &&& text::contains(
                t,
                "\n\nEarlier fragments already drafted for this same section:\n"@
                    + rendering::earlier_parts(done),
            )
            &&& text::contains(
                t,
                "\n\nEvidence dossier to use silently:\n"@ + rendering::dossier(c.sources),
            )
        }),
{
}

/// The editor of a part is told what is written about and what the part is measured by.
#[verifier::rlimit(40)]
pub proof fn law_part_review_prompts(
    c: ContextView,
    b: BlueprintView,
    p: PartView,
    draft: Seq<char>,
)
    ensures
        ({
            let t = prompts::part_review_prompt(c, b, p, draft);
            &&& text::contains(t, c.topic)
            &&& text::contains(t, "\nTitle: "@ + c.plan.title)
            &&& text::contains(t, "\nReference style: "@ + c.reference_style.name())
            &&& text::contains(t, "\nParent section heading: "@ + b.heading)
            &&& text::contains(t, "\nFragment focus: "@ + p.label)
            &&& text::contains(
                t,
                "\nMinimum acceptable fragment length: "@ + numbers::decimal(
                    (p.target_words * 30 / 100) as nat,
                ),
            )
            &&& text::contains(
                t,
                " words\nMinimum in-text citations in this fragment: "@ + numbers::decimal(
                    p.minimum_citations as nat,
                ),
            )
            &&& text::contains(t, "\n\nDraft:\n"@ + draft)
        }),
{
}

/// The prompts for a section, to its writer and to its editor, tell what is written about, what the
/// section is measured by and its draft, and to its writer every source.
#[verifier::rlimit(40)]
pub proof fn law_section_prompts(
    c: ContextView,
    b: BlueprintView,
    draft: Seq<char>,
    failure: Seq<char>,
)
    ensures
        ({
            let t = prompts::section_revision_prompt(c, b, draft, failure);
            &&& text::contains(t, c.topic)
            &&& text::contains(t, "\nDeliverable: "@ + c.tier.deliverable())
            &&& text::contains(t, "\nTitle: "@ + c.plan.title)
            &&& text::contains(t, "\nTier: "@ + c.tier.name())
            &&& text::contains(t, "\nReference style: "@ + c.reference_style.name())
            &&& text::contains(t, "\nSection heading: "@ + b.heading)
            &&& text::contains(
                t,
                "\nMinimum acceptable length: "@ + numbers::decimal(
                    (b.target_words * 20 / 100) as nat,
                ),
            )
            &&& text::contains(
                t,
                " words\nMinimum in-text citations: "@ + numbers::decimal(
                    b.minimum_citations as nat,
                ),
            )
            &&& text::contains(
                t,
                "\n\nEvidence dossier to use silently:\n"@ + rendering::dossier(c.sources),
            )
            &&& text::contains(t, "\n\nPrevious draft to fix:\n"@ + draft)
        }),
        ({
            let t = prompts::section_review_prompt(c, b, draft);
            &&& text::contains(t, c.topic)
            &&& text::contains(t, "\nTitle: "@ + c.plan.title)
            &&& text::contains(t, "\nReference style: "@ + c.reference_style.name())
            &&& text::contains(t, "\nSection heading: "@ + b.heading)
            &&& text::contains(
                t,
                "\nMinimum acceptable length: "@ + numbers::decimal(
                    (b.target_words * 20 / 100) as nat,
                ),
            )
            &&& text::contains(
                t,
                " words\nMinimum in-text citations: "@ + numbers::decimal(
                    b.minimum_citations as nat,
                ),
            )
            &&& text::contains(t, "\n\nDraft:\n"@ + draft)
        }),
{
}

/// References are asked for with every source and with every section, in order.
#[verifier::rlimit(40)]
pub proof fn law_references_prompts(c: ReportContextView, list: Seq<SectionView>)
    ensures
        ({
            let t = prompts::references_prompt(c, list);
            &&& text::contains(t, " below.\n\nTopic: "@ + c.topic)
            &&& text::contains(t, "\nTitle: "@ + c.plan.title)
            &&& text::contains(t, "\nTier: "@ + c.tier.name())
            &&& text::contains(t, "\nReference style: "@ + c.reference_style.name())
            &&& text::contains(
                t,
                "\nCitation target: "@ + numbers::decimal(c.tier.citations() as nat),
            )
            &&& text::contains(t, "\n\nEvidence dossier:\n"@ + rendering::dossier(c.sources))
            &&& text::contains(
                t,
                "\n\nReturn only a markdown section beginning with \"## "@
                    + c.reference_style.heading(),
            )
            &&& finding::stand_in_order(t, Seq::new(list.len(), |i: int| list[i].content))
        }),
{
    let texts = sections::section_texts(list);
    assert(texts =~= Seq::new(list.len(), |i: int| list[i].content));
    let body = pieces::join(texts, "\n\n"@);
    finding::lemma_order_of_join(texts, "\n\n"@);
    let t = prompts::references_prompt(c, list);
    assert(text::contains(t, body));
    finding::lemma_order_within(t, body, texts);
}

/// A plan is asked for with the topic, the tier, the style, what is to be met and every source.
#[verifier::rlimit(40)]
pub proof fn law_plan_prompts(
    topic: Seq<char>,
    tier: ResearchTier,
    style: ReferenceStyle,
    spec: DocumentView,
    list: Seq<SourceView>,
)
    ensures
        ({
            let t = prompts::plan_prompt(topic, tier, style, spec, list);
            &&& text::contains(t, spec.deliverable)
            &&& text::contains(t, topic)
            &&& text::contains(t, "\nTier: "@ + tier.name())
            &&& text::contains(t, "\nReference style: "@ + style.name())
            &&& text::contains(
                t,
                "\nCitation target: "@ + numbers::decimal(tier.citations() as nat),
            )
            &&& text::contains(
                t,
                "\nMinimum word count: "@ + numbers::decimal(spec.minimum_words as nat),
            )
            &&& text::contains(t, "\n\nEvidence dossier:\n"@ + rendering::dossier(list))
        }),
{
}

/// A brief is asked for with the topic and the packets of the sources.
pub proof fn law_brief_prompts(topic: Seq<char>, list: Seq<SourceView>)
    ensures
        ({
            let t = prompts::brief_prompt(topic, list);
            &&& text::contains(t, "User topic:\n"@ + topic)
            &&& text::contains(t, "\n\nEvidence pack:\n"@ + rendering::packets_text(list))
            &&& text::contains(
                t,
                "\n\nSource mix summary:\n- Total sources: "@ + numbers::decimal(list.len()),
            )
            &&& text::contains(
                t,
                "\n- Public-domain books with legal download links: "@ + numbers::decimal(
                    list.filter(rendering::public_domain_test()).len(),
                ),
            )
        }),
{
}

/// A follow-up is rewritten in view of the questions before it, in order.
pub proof fn law_reformulation_prompts(history: Seq<Seq<char>>, query: Seq<char>)
    ensures
        ({
            let t = prompts::reformulation_prompt(history, query);
            &&& finding::stand_in_order(t, history)
            &&& text::contains(t, "\n\nNew follow-up question: "@ + query)
        }),
{
    let lines = prompts::numbered(history);
    let body = pieces::join(lines, "\n"@);
    assert forall|i: int| 0 <= i < lines.len() implies text::contains(
        #[trigger] lines[i],
        history[i],
    ) by {
        finding::lemma_holds_back(rendering::ordinal(i) + ". "@, history[i], history[i]);
    }
    finding::lemma_order_of_join(lines, "\n"@);
    finding::lemma_order_inside(body, lines, history);
    let t = prompts::reformulation_prompt(history, query);
    assert(text::contains(t, body));
    finding::lemma_order_within(t, body, history);
}

/// Where no plan could be had, the plain one is about the topic.
pub proof fn law_plain_plans(topic: Seq<char>, tier: ResearchTier, spec: DocumentView)
    ensures
        ({
            let p = prompts::plain_plan(topic, tier, spec);
            let t = trim::trim(topic);
            &&& p.title == "A Research Study on "@ + t
            &&& text::contains(p.thesis, t)
            &&& text::contains(p.thesis, spec.deliverable)
            &&& p.research_questions.len() == 3
            &&& text::contains(p.research_questions[0], t)
            &&& p.keywords.len() == 5
            &&& p.keywords[0] == t
            &&& p.keywords[1] == tier.name()
        }),
{
}

} // verus!
