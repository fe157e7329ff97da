//! Writing a report: what each reply of a model becomes, and what a finished report holds.

use crate::blueprint;
use crate::blueprint::BlueprintView;
use crate::drafting;
use crate::drafting::SectionStepView;
use crate::laws::finding;
use crate::models::{QualityView, ReferenceStyle, ResearchTier, SectionView, SourceView};
use crate::prompts;
use crate::prompts::ContextView;
use crate::quality;
use crate::rendering;
use crate::rendering::ReportContextView;
use crate::report;
use crate::report::{ReportStageView, ReportStepView, ReportWorkView};
use crate::sections;
use crate::text;
use vstd::prelude::*;

verus! {

broadcast use finding::group_holds;

// Revision

proof fn lemma_revising_from(
    c: ReportContextView,
    pass: int,
    list: Seq<SectionView>,
    q: QualityView,
    revised: Seq<SectionView>,
    progress: Seq<Seq<char>>,
    pause_secs: int,
)
    requires
        list.len() == c.spec.sections.len(),
        revised.len() <= list.len(),
    ensures
        ({
            let targets = quality::revision_targets(list, c.spec.sections, q);
            let n = list.len() as int;
            report::revising_from(c, pass, list, q, revised, progress, pause_secs) matches
                ReportStepView::Continue { work, pause_secs: pause, .. } && work.input == c && pause
                == pause_secs && match work.stage {
                ReportStageView::Revising {
                    pass: same,
                    list: kept,
                    quality,
                    revised: more,
                    draft,
                } => same == pass && kept == list && quality == q && draft is None
                    && revised.len() <= more.len() < n && targets.contains(more.len() as int)
                    && carried(revised, more, list, targets),
                ReportStageView::Compiling { pass: next, list: more } => next == pass + 1
                    && more.len() == n && carried(revised, more, list, targets),
                _ => false,
            }
        }),
    decreases c.spec.sections.len() - revised.len(),
{
    let blueprints = c.spec.sections;
    let i = revised.len() as int;
    let targets = quality::revision_targets(list, blueprints, q);
    if i < blueprints.len() && !targets.contains(i) {
        let next = revised.push(list[i]);
        lemma_revising_from(c, pass, list, q, next, progress, pause_secs);
        match report::revising_from(c, pass, list, q, next, progress, pause_secs) {
            ReportStepView::Continue { work, .. } => {
                let more = revised_sections(work.stage);
                assert(carried(next, more, list, targets));
                assert(more.take(i) =~= revised) by {
                    assert forall|k: int| 0 <= k < i implies more[k] == revised[k] by {
                        assert(more.take(next.len() as int)[k] == next[k]);
                    }
                }
                assert(more[i] == list[i]) by {
                    assert(more.take(next.len() as int)[i] == next[i]);
                }
                assert(carried(revised, more, list, targets));
            },
            _ => {},
        }
    } else {
        assert(revised.take(i) =~= revised);
    }
}

/// The sections of a report that is being revised, as far as they are settled; of a report that
/// waits for its references, all of them.
pub open spec fn revised_sections(stage: ReportStageView) -> Seq<SectionView> {
    match stage {
        ReportStageView::Revising { revised, .. } => revised,
        ReportStageView::Compiling { list, .. } => list,
        ReportStageView::Drafting { drafted, .. } => drafted,
    }
}

/// The settled sections stay, and those that follow are carried forward as they were: none of them
/// is a target.
pub open spec fn carried(
    settled: Seq<SectionView>,
    more: Seq<SectionView>,
    list: Seq<SectionView>,
    targets: Seq<int>,
) -> bool {
    &&& settled.len() <= more.len() <= list.len()
    &&& more.take(settled.len() as int) == settled
    &&& forall|k: int|
        settled.len() <= k < more.len() ==> #[trigger] more[k] == list[k] && !targets.contains(k)
}

/// The editor's reply settles the section under revision: its text is what the reply holds, under
/// its heading. What was settled before stays, sections that are no target are carried forward as
/// they were up to the next target, and after the last section the report is compiled again.
pub proof fn law_revisions_are_taken(w: ReportWorkView, raw: Seq<char>)
    requires
        report::goes_on(w),
        w.stage matches ReportStageView::Revising { draft, .. } && draft is Some,
    ensures
        ({
            let c = w.input;
            let list = w.stage->Revising_list;
            let q = w.stage->Revising_quality;
            let old = w.stage->Revising_revised;
            let i = old.len() as int;
            let b = c.spec.sections[i];
            let targets = quality::revision_targets(list, c.spec.sections, q);
            &&& report::report_step(w, Ok(raw)) matches ReportStepView::Continue { work, .. }
            &&& work.input == c
            &&& work.stage !is Drafting
            &&& ({
                let more = revised_sections(work.stage);
                &&& more.len() > i
                &&& more.take(i) == old
                &&& more[i].content == sections::normalized(raw, b.heading)
                &&& more[i].heading == b.heading
                &&& more[i].target_words == b.target_words
                &&& more[i].actual_words == quality::word_count(raw)
                &&& forall|k: int|
                    i < k < more.len() ==> #[trigger] more[k] == list[k] && !targets.contains(k)
                &&& work.stage is Compiling ==> more.len() == list.len()
                    && work.stage->Compiling_pass == w.stage->Revising_pass + 1
                &&& work.stage is Revising ==> targets.contains(more.len() as int)
                    && work.stage->Revising_list == list && work.stage->Revising_quality == q
                    && work.stage->Revising_pass == w.stage->Revising_pass
                    && work.stage->Revising_draft is None
            })
        }),
{
    let c = w.input;
    let list = w.stage->Revising_list;
    let q = w.stage->Revising_quality;
    let old = w.stage->Revising_revised;
    let i = old.len() as int;
    let b = c.spec.sections[i];
    let done = SectionView {
        heading: b.heading,
        target_words: b.target_words,
        actual_words: quality::word_count(raw),
        content: sections::normalized(raw, b.heading),
    };
    lemma_revising_from(c, w.stage->Revising_pass, list, q, old.push(done), seq![], 0);
    match report::report_step(w, Ok(raw)) {
        ReportStepView::Continue { work, .. } => {
            let more = revised_sections(work.stage);
            let n = old.push(done).len() as int;
            assert(more.take(n)[i] == done);
            assert(more.take(i) =~= old) by {
                assert forall|k: int| 0 <= k < i implies more[k] == old[k] by {
                    assert(more.take(n)[k] == old.push(done)[k]);
                }
            }
        },
        _ => {},
    }
}

/// The first reply on a section under revision waits for the editor, and is what the editor is
/// shown; nothing else changes.
pub proof fn law_revisions_go_to_the_editor(w: ReportWorkView, raw: Seq<char>)
    requires
        report::goes_on(w),
        w.stage matches ReportStageView::Revising { draft, .. } && draft is None,
    ensures
        ({
            let b = w.input.spec.sections[w.stage->Revising_revised.len() as int];
            let t = sections::normalized(raw, b.heading);
            &&& report::report_step(w, Ok(raw)) matches ReportStepView::Continue { work, .. }
            &&& work.input == w.input
            &&& work.stage is Revising
            &&& work.stage->Revising_draft == Some(t)
            &&& work.stage->Revising_revised == w.stage->Revising_revised
            &&& work.stage->Revising_list == w.stage->Revising_list
            &&& work.stage->Revising_quality == w.stage->Revising_quality
            &&& work.stage->Revising_pass == w.stage->Revising_pass
            &&& text::contains(report::report_request(work).prompt, "\n\nDraft:\n"@ + t)
        }),
{
}

/// A model that revises a section is shown its text and told why it is revised.
#[verifier::rlimit(40)]
pub proof fn law_revisers_see_the_section(w: ReportWorkView)
    requires
        report::goes_on(w),
        w.stage matches ReportStageView::Revising { draft, .. } && draft is None,
    ensures
        ({
            let i = w.stage->Revising_revised.len() as int;
            let b = w.input.spec.sections[i];
            let s = w.stage->Revising_list[i];
            let reasons = quality::reasons_text(
                quality::revision_reasons(s, b, w.stage->Revising_quality),
            );
            let p = report::report_request(w).prompt;
            &&& text::contains(p, "\n\nPrevious draft to fix:\n"@ + s.content)
            &&& text::contains(p, reasons)
            &&& text::contains(p, "Section heading: "@ + b.heading)
        }),
{
    let i = w.stage->Revising_revised.len() as int;
    let b = w.input.spec.sections[i];
    let s = w.stage->Revising_list[i];
    let reasons = quality::reasons_text(
        quality::revision_reasons(s, b, w.stage->Revising_quality),
    );
    let p = report::report_request(w).prompt;
    let told = rendering::or_else(reasons, "The draft did not satisfy the quality bar."@);
    assert(text::contains(p, told));
    if reasons.len() == 0 {
        assert(p.subrange(0, 0) =~= reasons);
        assert(text::occurs_at(p, reasons, 0));
    }
    reveal_strlit("\nSection heading: ");
    reveal_strlit("Section heading: ");
    reveal_strlit("\n");
    assert("\nSection heading: "@ =~= "\n"@ + "Section heading: "@);
    assert("\nSection heading: "@ + b.heading =~= "\n"@ + ("Section heading: "@ + b.heading));
    assert(text::contains(p, "\nSection heading: "@ + b.heading));
    finding::lemma_holds_through(
        p,
        "\nSection heading: "@ + b.heading,
        "Section heading: "@ + b.heading,
    );
}

// Judgement

/// The references of a report: those that a model wrote, or those that the sources suggest where the
/// call failed.
pub open spec fn references_given(
    c: ReportContextView,
    answer: Result<Seq<char>, Seq<char>>,
) -> Seq<char> {
    match answer {
        Ok(raw) => sections::references(raw, c.reference_style),
        Err(_) => rendering::plain_references(c.sources, c.reference_style),
    }
}

/// A compiled report that passes the gates is finished: it holds the sections, the references and
/// the text they make up, what it was written from, and the counts of that text.
#[verifier::rlimit(40)]
pub proof fn law_accepted_reports_are_finished(
    w: ReportWorkView,
    answer: Result<Seq<char>, Seq<char>>,
)
    requires
        report::goes_on(w),
        w.stage is Compiling,
    ensures
        ({
            let c = w.input;
            let list = w.stage->Compiling_list;
            let references = references_given(c, answer);
            let t = rendering::report_text(c, list, references);
            let q = quality::report_quality(t, c.spec, c.tier.citations(), c.reference_style);
            &&& report::report_step(w, answer) is Done <==> quality::report_accepted(q)
            &&& report::report_step(w, answer) matches ReportStepView::Done { report, .. } ==> {
                &&& report.topic == c.topic
                &&& report.title == c.plan.title
                &&& report.tier == c.tier.name()
                &&& report.deliverable == c.spec.deliverable
                &&& report.reference_style == c.reference_style.name()
                &&& report.citations_target == c.tier.citations()
                &&& report.plan == c.plan
                &&& report.sources == c.sources
                &&& report.sections == list
                &&& report.references == references
                &&& report.markdown == t
                &&& report.quality == q
                &&& report.total_word_count == quality::word_count(t)
                &&& report.estimated_page_count >= 1
                &&& report.estimated_page_count * 500 >= quality::word_count(t)
                &&& report.estimated_page_count > 1 ==> (report.estimated_page_count - 1) * 500
                    < quality::word_count(t)
                &&& list.len() > 0 ==> report.abstract_preview == Some(
                    sections::preview(list[0].content, 900),
                )
                &&& report.artifacts is None
            }
        }),
{
    let c = w.input;
    let references = references_given(c, answer);
    let t = rendering::report_text(c, w.stage->Compiling_list, references);
    let list = w.stage->Compiling_list;
    let q = quality::report_quality(t, c.spec, c.tier.citations(), c.reference_style);
    quality::law_pages(quality::word_count(t));
    if !quality::report_accepted(q) && w.stage->Compiling_pass < report::MAX_REPORT_REVISION_PASSES {
        lemma_revising_from(
            c,
            w.stage->Compiling_pass,
            list,
            q,
            seq![],
            seq![],
            report::REVISION_PAUSE_SECS as int,
        );
    }
}

/// A compiled report that fails the gates is revised, after a pause, from its first target on with
/// the sections before it as they were; after two revisions it is given up, with the reasons.
#[verifier::rlimit(40)]
pub proof fn law_refused_reports_are_revised_or_given_up(
    w: ReportWorkView,
    answer: Result<Seq<char>, Seq<char>>,
)
    requires
        report::goes_on(w),
        w.stage is Compiling,
    ensures
        ({
            let c = w.input;
            let list = w.stage->Compiling_list;
            let t = rendering::report_text(c, list, references_given(c, answer));
            let q = quality::report_quality(t, c.spec, c.tier.citations(), c.reference_style);
            let targets = quality::revision_targets(list, c.spec.sections, q);
            let step = report::report_step(w, answer);
            !quality::report_accepted(q) ==> {
                &&& w.stage->Compiling_pass >= 2 ==> (step matches ReportStepView::Failed {
                    error,
                    ..
                } && text::contains(error, quality::reasons_text(quality::report_reasons(q))))
                &&& w.stage->Compiling_pass < 2 && list.len() > 0 ==> (
                step matches ReportStepView::Continue { work, pause_secs, .. } && pause_secs == 20
                    && work.input == c && work.stage is Revising && work.stage->Revising_list
                    == list && work.stage->Revising_quality == q && work.stage->Revising_pass
                    == w.stage->Compiling_pass && work.stage->Revising_draft is None
                    && targets.contains(work.stage->Revising_revised.len() as int) && carried(
                    seq![],
                    work.stage->Revising_revised,
                    list,
                    targets,
                ))
            }
        }),
{
    let c = w.input;
    let list = w.stage->Compiling_list;
    let t = rendering::report_text(c, list, references_given(c, answer));
    let q = quality::report_quality(t, c.spec, c.tier.citations(), c.reference_style);
    let targets = quality::revision_targets(list, c.spec.sections, q);
    if !quality::report_accepted(q) && w.stage->Compiling_pass < report::MAX_REPORT_REVISION_PASSES {
        lemma_revising_from(
            c,
            w.stage->Compiling_pass,
            list,
            q,
            seq![],
            seq![],
            report::REVISION_PAUSE_SECS as int,
        );
        quality::law_revision_targets(list, c.spec.sections, q);
        if list.len() > 0 {
            let first = targets[0];
            assert(targets.contains(first));
            match report::report_step(w, answer) {
                ReportStepView::Continue { work, .. } => {
                    if work.stage is Compiling {
                        let more = revised_sections(work.stage);
                        assert(more[first] == list[first]);
                    }
                },
                _ => {},
            }
        }
    }
}

/// A call that fails ends the work with its error, but for the references.
pub proof fn law_failed_calls_end_the_work(w: ReportWorkView, error: Seq<char>)
    requires
        w.stage !is Compiling,
    ensures
        report::report_step(w, Err(error)) matches ReportStepView::Failed { error: told, .. }
            && told == error,
{
}

// Drafting

/// Whether a section is a summary, which is written when the rest of the report is there.
pub open spec fn is_summary(b: BlueprintView) -> bool {
    b.heading == "Abstract"@ || b.heading == "Executive Summary"@
}

/// The next section to draft at or behind an index: in each round the next of its kind; when there
/// is none left, the first summary; when there is none of those, all sections are assembled.
pub open spec fn goes_to_next(
    step: ReportStepView,
    c: ReportContextView,
    index: int,
    summaries: bool,
    drafted: Seq<SectionView>,
    deferred: Seq<SectionView>,
) -> bool {
    let list = c.spec.sections;
    match step {
        ReportStepView::Continue { work, .. } => {
            &&& work.input == c
            &&& match work.stage {
                ReportStageView::Drafting {
                    index: next,
                    summaries: round,
                    drafted: first,
                    deferred: last,
                    section,
                } => {
                    &&& first == drafted
                    &&& last == deferred
                    &&& 0 <= next < list.len()
                    &&& is_summary(list[next]) == round
                    &&& section.parts.len() == 0 && section.revision is None
                        && section.part.attempt == 0 && section.part.working is None
                        && section.part.draft is None
                    &&& round == summaries ==> index <= next && forall|k: int|
                        index <= k < next ==> is_summary(#[trigger] list[k]) != summaries
                    &&& round != summaries ==> round && (forall|k: int|
                        index <= k < list.len() ==> is_summary(#[trigger] list[k])) && forall|
                        k: int,
                    |
                        0 <= k < next ==> !is_summary(#[trigger] list[k])
                },
                ReportStageView::Compiling { pass, list: all } => {
                    &&& pass == 0
                    &&& all.len() == list.len()
                    &&& forall|k: int|
                        0 <= k < all.len() ==> (#[trigger] all[k]).heading == list[k].heading && (
                        drafted.contains(all[k]) || deferred.contains(all[k]))
                    &&& forall|k: int|
                        index <= k < list.len() ==> is_summary(#[trigger] list[k]) != summaries
                },
                _ => false,
            }
        },
        ReportStepView::Failed { .. } => exists|k: int|
            0 <= k < list.len() && blueprint::section_for(
                (#[trigger] list[k]).heading,
                drafted,
                deferred,
            ) is None,
        _ => false,
    }
}

/// What is next behind a section of the other kind is next at it.
proof fn lemma_goes_past(
    step: ReportStepView,
    c: ReportContextView,
    index: int,
    summaries: bool,
    drafted: Seq<SectionView>,
    deferred: Seq<SectionView>,
)
    requires
        0 <= index < c.spec.sections.len(),
        is_summary(c.spec.sections[index]) != summaries,
        goes_to_next(step, c, index + 1, summaries, drafted, deferred),
    ensures
        goes_to_next(step, c, index, summaries, drafted, deferred),
{
}

/// What is next among the summaries is next where no other section is left.
proof fn lemma_goes_to_summaries(
    step: ReportStepView,
    c: ReportContextView,
    drafted: Seq<SectionView>,
    deferred: Seq<SectionView>,
)
    requires
        goes_to_next(step, c, 0, true, drafted, deferred),
    ensures
        goes_to_next(step, c, c.spec.sections.len() as int, false, drafted, deferred),
{
}

/// After the last summary all sections are assembled.
proof fn lemma_goes_to_references(
    c: ReportContextView,
    drafted: Seq<SectionView>,
    deferred: Seq<SectionView>,
    progress: Seq<Seq<char>>,
)
    ensures
        goes_to_next(
            report::drafting_from(
                c,
                c.spec.sections.len() as int,
                true,
                drafted,
                deferred,
                progress,
            ),
            c,
            c.spec.sections.len() as int,
            true,
            drafted,
            deferred,
        ),
{
    blueprint::law_order(c.spec.sections, drafted, deferred);
}

#[verifier::rlimit(30)]
#[verifier::spinoff_prover]
proof fn lemma_drafting_from(
    c: ReportContextView,
    index: int,
    summaries: bool,
    drafted: Seq<SectionView>,
    deferred: Seq<SectionView>,
    progress: Seq<Seq<char>>,
)
    requires
        0 <= index <= c.spec.sections.len(),
        forall|k: int|
            0 <= k < c.spec.sections.len() ==> (#[trigger] c.spec.sections[k]).parts.len() > 0,
    ensures
        goes_to_next(
            report::drafting_from(c, index, summaries, drafted, deferred, progress),
            c,
            index,
            summaries,
            drafted,
            deferred,
        ),
    decreases
            (if summaries {
                0int
            } else {
                1int
            }),
            c.spec.sections.len() - index,
{
    let list = c.spec.sections;
    let step = report::drafting_from(c, index, summaries, drafted, deferred, progress);
    if index >= list.len() {
        if !summaries {
            lemma_drafting_from(c, 0, true, drafted, deferred, progress);
            lemma_goes_to_summaries(step, c, drafted, deferred);
        } else {
            lemma_goes_to_references(c, drafted, deferred, progress);
        }
    } else if blueprint::is_deferred(list[index].heading) != summaries {
        lemma_drafting_from(c, index + 1, summaries, drafted, deferred, progress);
        lemma_goes_past(step, c, index, summaries, drafted, deferred);
    } else {
        assert(list[index].parts.len() > 0);
    }
}

/// A report begins with its first section that is no summary.
pub proof fn law_reports_begin(c: ReportContextView)
    requires
        forall|k: int|
            0 <= k < c.spec.sections.len() ==> (#[trigger] c.spec.sections[k]).parts.len() > 0,
    ensures
        goes_to_next(report::report_start(c), c, 0, false, seq![], seq![]),
{
    lemma_drafting_from(
        c,
        0,
        false,
        seq![],
        seq![],
        seq!["Plan created. Drafting core chapters..."@],
    );
}

/// A section that is done is kept with those of its round, it is told that it was drafted, and the
/// next one is begun; a section that is not done goes on, and one that fails ends the work with its
/// error.
#[verifier::rlimit(40)]
pub proof fn law_drafted_sections_are_kept(w: ReportWorkView, raw: Seq<char>)
    requires
        report::goes_on(w),
        w.stage is Drafting,
        forall|k: int|
            0 <= k < w.input.spec.sections.len() ==> (
            #[trigger] w.input.spec.sections[k]).parts.len() > 0,
    ensures
        ({
            let c = w.input;
            let index = w.stage->index;
            let summaries = w.stage->summaries;
            let drafted = w.stage->drafted;
            let deferred = w.stage->deferred;
            let b = c.spec.sections[index];
            let step = report::report_step(w, Ok(raw));
            match drafting::section_step(w.stage->section, b, raw) {
                SectionStepView::Done { section } => goes_to_next(
                    step,
                    c,
                    index + 1,
                    summaries,
                    if summaries {
                        drafted
                    } else {
                        drafted.push(section)
                    },
                    if summaries {
                        deferred.push(section)
                    } else {
                        deferred
                    },
                ),
                SectionStepView::Continue { work: more } => step matches ReportStepView::Continue {
                    work,
                    ..
                } && work.input == c && work.stage is Drafting && work.stage->index == index
                    && work.stage->summaries == summaries && work.stage->drafted == drafted
                    && work.stage->deferred == deferred && work.stage->section == more,
                SectionStepView::Failed { error } => step matches ReportStepView::Failed {
                    error: told,
                    ..
                } && told == error,
                SectionStepView::Stuck => step is Stuck,
            }
        }),
{
    let c = w.input;
    let b = c.spec.sections[w.stage->index];
    match drafting::section_step(w.stage->section, b, raw) {
        SectionStepView::Done { section } => {
            lemma_drafting_from(
                c,
                w.stage->index + 1,
                w.stage->summaries,
                if w.stage->summaries {
                    w.stage->drafted
                } else {
                    w.stage->drafted.push(section)
                },
                if w.stage->summaries {
                    w.stage->deferred.push(section)
                } else {
                    w.stage->deferred
                },
                seq![report::drafted_message(b.heading)],
            );
        },
        _ => {},
    }
}

/// Every section of the report of each tier has parts, so that each is drafted by a model.
pub proof fn law_every_section_has_parts(tier: ResearchTier)
    ensures
        forall|k: int|
            0 <= k < blueprint::document_of(tier).sections.len() ==> (
            #[trigger] blueprint::document_of(tier).sections[k]).parts.len() > 0,
{
    let list = blueprint::document_of(tier).sections;
    assert forall|k: int| 0 <= k < list.len() implies (#[trigger] list[k]).parts.len() > 0 by {}
}

// Requests

/// While a report is drafted its requests are those of the section at work, in the light of the
/// sections before it; then references are asked for with all sections.
pub proof fn law_requests_of_a_report(w: ReportWorkView)
    ensures
        ({
            let c = w.input;
            let r = report::report_request(w);
            match w.stage {
                ReportStageView::Drafting { index, drafted, section, .. } => exists|
                    context: ContextView,
                |
                    context.topic == c.topic && context.tier == c.tier && context.reference_style
                        == c.reference_style && context.plan == c.plan && context.sources
                        == c.sources && context.previous == drafted && r
                        == #[trigger] drafting::section_request(
                        section,
                        context,
                        c.spec.sections[index],
                    ),
                ReportStageView::Compiling { list, .. } => r.prompt == prompts::references_prompt(
                    c,
                    list,
                ) && r.system == prompts::PROFESSOR_SYSTEM_PROMPT@ && r.temperature_percent == 20
                    && r.max_output_tokens == 2048,
                ReportStageView::Revising { .. } => true,
            }
        }),
{
    match w.stage {
        ReportStageView::Drafting { index, drafted, section, .. } => {
            let context = report::section_context(w.input, drafted);
            assert(report::report_request(w) == drafting::section_request(
                section,
                context,
                w.input.spec.sections[index],
            ));
        },
        _ => {},
    }
}

/// A plan is asked for as JSON, for the document of the tier.
pub proof fn law_plans_are_asked_for(
    topic: Seq<char>,
    tier: ResearchTier,
    style: ReferenceStyle,
    list: Seq<SourceView>,
)
    ensures
        ({
            let r = report::plan_request(topic, tier, style, list);
            &&& r.kind is Planning
            &&& r.prompt == prompts::plan_prompt(
                topic,
                tier,
                style,
                blueprint::document_of(tier),
                list,
            )
            &&& r.system == prompts::PROFESSOR_SYSTEM_PROMPT@
            &&& r.temperature_percent == 10
            &&& r.max_output_tokens == 1600
        }),
{
}

} // verus!
