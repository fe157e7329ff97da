//! Writing a report: its sections one after the other, the summaries last; then the references, the
//! quality gates and, where the report is refused, its revision.
//!
//! The work is a state that says what a model is asked next and that each reply moves on.

use crate::blueprint;
use crate::blueprint::{BlueprintView, DocumentSpec};
use crate::drafting;
use crate::drafting::{SectionStep, SectionStepView, SectionWork, SectionWorkView};
use crate::model_call::{ModelKind, ModelRequest, RequestView};
use crate::models;
use crate::models::{
    QualityView, ReferenceStyle, ReportView, ResearchPlan, ResearchQualityReport, ResearchReport,
    ResearchSection, ResearchSource, ResearchTier, SectionView, SourceView,
};
use crate::numbers;
use crate::prompts;
use crate::prompts::{ContextView, SectionGenerationContext};
use crate::quality;
use crate::rendering;
use crate::rendering::{ReportContext, ReportContextView};
use crate::sections;
use crate::text;
use vstd::prelude::*;

verus! {

broadcast use {text::lemma_views_push, models::lemma_section_views_push};

/// How often a report is revised as a whole before it is given up.
pub const MAX_REPORT_REVISION_PASSES: usize = 2;

/// How long to wait before a report is revised as a whole, so that rate limits can recover.
pub const REVISION_PAUSE_SECS: u64 = 20;

// Before the sections

/// What is told when the search for sources begins.
pub const GATHERING_MESSAGE: &'static str =
    "Gathering sources from web, YouTube, public social discussion, and legal book catalogs...";

/// What is told when the sources are there.
pub fn found_message(count: usize) -> (r: String)
    ensures
        r@ == "Found "@ + numbers::decimal(count as nat)
            + " sources. Planning argumentative structure..."@,
{
    let mut r = text::copy("Found ");
    numbers::push_decimal(&mut r, count as u64);
    r.append(" sources. Planning argumentative structure...");
    r
}

/// What a model is asked for the plan of a report.
pub open spec fn plan_request(
    topic: Seq<char>,
    tier: ResearchTier,
    style: ReferenceStyle,
    list: Seq<SourceView>,
) -> RequestView {
    RequestView {
        kind: ModelKind::Planning,
        system: prompts::PROFESSOR_SYSTEM_PROMPT@,
        prompt: prompts::plan_prompt(topic, tier, style, blueprint::document_of(tier), list),
        temperature_percent: 10,
        max_output_tokens: 1_600,
    }
}

/// What a model is asked for the plan of a report.
pub fn generate_research_plan(
    topic: &str,
    tier: &ResearchTier,
    reference_style: &ReferenceStyle,
    list: &Vec<ResearchSource>,
) -> (r: ModelRequest)
    ensures
        r@ == plan_request(topic@, *tier, *reference_style, models::source_views(list@)),
{
    let spec = blueprint::document_spec_for_tier(tier);
    ModelRequest {
        kind: ModelKind::Planning,
        system: prompts::PROFESSOR_SYSTEM_PROMPT,
        prompt: prompts::build_research_plan_prompt(topic, tier, reference_style, &spec, list),
        temperature_percent: 10,
        max_output_tokens: 1_600,
    }
}

/// The plan that a model made, or else the plain one.
pub fn settle_plan(made: Option<ResearchPlan>, topic: &str, tier: &ResearchTier) -> (r:
    ResearchPlan)
    ensures
        match made {
            Some(plan) => r == plan,
            None => r@ == prompts::plain_plan(topic@, *tier, blueprint::document_of(*tier)),
        },
{
    match made {
        Some(plan) => plan,
        None => {
            let spec = blueprint::document_spec_for_tier(tier);
            prompts::fallback_research_plan(topic, tier, &spec)
        },
    }
}

// The state

/// Where the work on a report stands.
///
/// `Drafting` is at the section with this index; the first round drafts all but the summaries, the
/// second round the summaries. `Compiling` waits for the references of a complete report.
/// `Revising` is at the section behind the revised ones; its text, if there is one, waits for the
/// editor.
#[derive(Debug)]
pub enum ReportStage {
    Drafting {
        index: usize,
        summaries: bool,
        drafted: Vec<ResearchSection>,
        deferred: Vec<ResearchSection>,
        section: SectionWork,
    },
    Compiling { pass: usize, list: Vec<ResearchSection> },
    Revising {
        pass: usize,
        list: Vec<ResearchSection>,
        quality: ResearchQualityReport,
        revised: Vec<ResearchSection>,
        draft: Option<String>,
    },
}

pub enum ReportStageView {
    Drafting {
        index: int,
        summaries: bool,
        drafted: Seq<SectionView>,
        deferred: Seq<SectionView>,
        section: SectionWorkView,
    },
    Compiling { pass: int, list: Seq<SectionView> },
    Revising {
        pass: int,
        list: Seq<SectionView>,
        quality: QualityView,
        revised: Seq<SectionView>,
        draft: Option<Seq<char>>,
    },
}

impl View for ReportStage {
    type V = ReportStageView;

    open spec fn view(&self) -> ReportStageView {
        match self {
            ReportStage::Drafting { index, summaries, drafted, deferred, section } =>
                ReportStageView::Drafting {
                index: *index as int,
                summaries: *summaries,
                drafted: models::section_views(drafted@),
                deferred: models::section_views(deferred@),
                section: section@,
            },
            ReportStage::Compiling { pass, list } => ReportStageView::Compiling {
                pass: *pass as int,
                list: models::section_views(list@),
            },
            ReportStage::Revising { pass, list, quality, revised, draft } =>
                ReportStageView::Revising {
                pass: *pass as int,
                list: models::section_views(list@),
                quality: quality@,
                revised: models::section_views(revised@),
                draft: text::opt_view(*draft),
            },
        }
    }
}

/// What a report is written from.
#[derive(Debug)]
pub struct ReportInput {
    pub topic: String,
    pub tier: ResearchTier,
    pub reference_style: ReferenceStyle,
    pub plan: ResearchPlan,
    pub sources: Vec<ResearchSource>,
    pub spec: DocumentSpec,
}

impl View for ReportInput {
    type V = ReportContextView;

    open spec fn view(&self) -> ReportContextView {
        ReportContextView {
            topic: self.topic@,
            tier: self.tier,
            reference_style: self.reference_style,
            plan: self.plan@,
            sources: models::source_views(self.sources@),
            spec: self.spec@,
        }
    }
}

/// The work on a report.
#[derive(Debug)]
pub struct ReportWork {
    pub input: ReportInput,
    pub stage: ReportStage,
}

pub struct ReportWorkView {
    pub input: ReportContextView,
    pub stage: ReportStageView,
}

impl View for ReportWork {
    type V = ReportWorkView;

    open spec fn view(&self) -> ReportWorkView {
        ReportWorkView { input: self.input@, stage: self.stage@ }
    }
}

/// What follows a reply: more work, after a pause; the finished report; or the end of it. Each comes
/// with what is told to those who wait.
#[derive(Debug)]
pub enum ReportStep {
    Continue { work: ReportWork, progress: Vec<String>, pause_secs: u64 },
    Done { report: ResearchReport, progress: Vec<String> },
    Failed { error: String, progress: Vec<String> },
    Stuck { progress: Vec<String> },
}

pub enum ReportStepView {
    Continue { work: ReportWorkView, progress: Seq<Seq<char>>, pause_secs: int },
    Done { report: ReportView, progress: Seq<Seq<char>> },
    Failed { error: Seq<char>, progress: Seq<Seq<char>> },
    Stuck { progress: Seq<Seq<char>> },
}

impl View for ReportStep {
    type V = ReportStepView;

    open spec fn view(&self) -> ReportStepView {
        match self {
            ReportStep::Continue { work, progress, pause_secs } => ReportStepView::Continue {
                work: work@,
                progress: text::views(progress@),
                pause_secs: *pause_secs as int,
            },
            ReportStep::Done { report, progress } => ReportStepView::Done {
                report: report@,
                progress: text::views(progress@),
            },
            ReportStep::Failed { error, progress } => ReportStepView::Failed {
                error: error@,
                progress: text::views(progress@),
            },
            ReportStep::Stuck { progress } => ReportStepView::Stuck {
                progress: text::views(progress@),
            },
        }
    }
}

/// Sections under the headings of a report, in its order.
pub open spec fn follows(list: Seq<SectionView>, blueprints: Seq<BlueprintView>) -> bool {
    &&& list.len() <= blueprints.len()
    &&& forall|i: int|
        0 <= i < list.len() ==> (#[trigger] list[i]).heading == blueprints[i].heading
}

/// Work that can go on.
pub open spec fn goes_on(w: ReportWorkView) -> bool {
    let blueprints = w.input.spec.sections;
    &&& blueprint::all_sized(blueprints)
    &&& w.input.spec.minimum_words * blueprint::SECTION_WORD_FLOOR_PERCENT <= usize::MAX
    &&& match w.stage {
        ReportStageView::Drafting { index, summaries, drafted, deferred, section } => {
            &&& 0 <= index < blueprints.len()
            &&& drafting::section_goes_on(section, blueprints[index])
        },
        ReportStageView::Compiling { pass, list } => {
            &&& 0 <= pass <= MAX_REPORT_REVISION_PASSES
            &&& list.len() == blueprints.len()
            &&& follows(list, blueprints)
        },
        ReportStageView::Revising { pass, list, quality, revised, draft } => {
            &&& 0 <= pass < MAX_REPORT_REVISION_PASSES
            &&& list.len() == blueprints.len()
            &&& follows(list, blueprints)
            &&& revised.len() < blueprints.len()
            &&& follows(revised, blueprints)
        },
    }
}

// What a model is asked

pub open spec fn section_context(c: ReportContextView, previous: Seq<SectionView>) -> ContextView {
    ContextView {
        topic: c.topic,
        tier: c.tier,
        reference_style: c.reference_style,
        plan: c.plan,
        sources: c.sources,
        previous,
    }
}

/// What a model is asked next for a report.
pub open spec fn report_request(w: ReportWorkView) -> RequestView {
    let c = w.input;
    match w.stage {
        ReportStageView::Drafting { index, summaries, drafted, deferred, section } =>
            drafting::section_request(section, section_context(c, drafted), c.spec.sections[index]),
        ReportStageView::Compiling { pass, list } => drafting::prose_request(
            prompts::references_prompt(c, list),
            20,
            2_048,
        ),
        ReportStageView::Revising { pass, list, quality, revised, draft } => {
            let i = revised.len() as int;
            let b = c.spec.sections[i];
            let context = section_context(c, revised);
            let tokens = blueprint::section_tokens(b.target_words);
            match draft {
                Some(text) => drafting::prose_request(
                    prompts::section_review_prompt(context, b, text),
                    15,
                    tokens,
                ),
                None => drafting::prose_request(
                    prompts::section_revision_prompt(
                        context,
                        b,
                        list[i].content,
                        quality::reasons_text(quality::revision_reasons(list[i], b, quality)),
                    ),
                    20,
                    tokens,
                ),
            }
        },
    }
}

// What follows

pub open spec fn drafted_message(heading: Seq<char>) -> Seq<char> {
    "Drafted: "@ + heading
}

/// The section that is drafted next from an index on: in the first round all but the summaries, in
/// the second the summaries. After both the sections are put into the order of the report.
pub open spec fn drafting_from(
    c: ReportContextView,
    index: int,
    summaries: bool,
    drafted: Seq<SectionView>,
    deferred: Seq<SectionView>,
    progress: Seq<Seq<char>>,
) -> ReportStepView
    decreases
            (if summaries {
                0int
            } else {
                1int
            }),
            c.spec.sections.len() - index,
    when 0 <= index
{
    let blueprints = c.spec.sections;
    if index >= blueprints.len() {
        if !summaries {
            drafting_from(c, 0, true, drafted, deferred, progress)
        } else {
            match blueprint::in_order(blueprints, drafted, deferred) {
                Err(error) => ReportStepView::Failed { error, progress },
                Ok(list) => ReportStepView::Continue {
                    work: ReportWorkView {
                        input: c,
                        stage: ReportStageView::Compiling { pass: 0, list },
                    },
                    progress: progress.push(
                        "Compiling references and running academic quality checks..."@,
                    ),
                    pause_secs: 0,
                },
            }
        }
    } else if blueprint::is_deferred(blueprints[index].heading) != summaries {
        drafting_from(c, index + 1, summaries, drafted, deferred, progress)
    } else {
        match drafting::section_start(blueprints[index]) {
            SectionStepView::Continue { work } => ReportStepView::Continue {
                work: ReportWorkView {
                    input: c,
                    stage: ReportStageView::Drafting {
                        index,
                        summaries,
                        drafted,
                        deferred,
                        section: work,
                    },
                },
                progress,
                pause_secs: 0,
            },
            SectionStepView::Done { section } => drafting_from(
                c,
                index + 1,
                summaries,
                if summaries {
                    drafted
                } else {
                    drafted.push(section)
                },
                if summaries {
                    deferred.push(section)
                } else {
                    deferred
                },
                progress.push(drafted_message(blueprints[index].heading)),
            ),
            SectionStepView::Failed { error } => ReportStepView::Failed { error, progress },
            SectionStepView::Stuck => ReportStepView::Stuck { progress },
        }
    }
}

/// The section that is revised next, with those before it that need no revision carried forward.
/// After the last the report is compiled again.
pub open spec fn revising_from(
    c: ReportContextView,
    pass: int,
    list: Seq<SectionView>,
    quality: QualityView,
    revised: Seq<SectionView>,
    progress: Seq<Seq<char>>,
    pause_secs: int,
) -> ReportStepView
    decreases c.spec.sections.len() - revised.len(),
{
    let blueprints = c.spec.sections;
    let i = revised.len() as int;
    if i >= blueprints.len() {
        ReportStepView::Continue {
            work: ReportWorkView {
                input: c,
                stage: ReportStageView::Compiling { pass: pass + 1, list: revised },
            },
            progress: progress.push(
                "Compiling references and running academic quality checks..."@,
            ),
            pause_secs,
        }
    } else if quality::revision_targets(list, blueprints, quality).contains(i) {
        ReportStepView::Continue {
            work: ReportWorkView {
                input: c,
                stage: ReportStageView::Revising { pass, list, quality, revised, draft: None },
            },
            progress,
            pause_secs,
        }
    } else {
        revising_from(c, pass, list, quality, revised.push(list[i]), progress, pause_secs)
    }
}

/// A report that was accepted.
pub open spec fn finished(
    c: ReportContextView,
    list: Seq<SectionView>,
    references: Seq<char>,
    markdown: Seq<char>,
    quality: QualityView,
) -> ReportView {
    let words = quality::word_count(markdown);
    ReportView {
        topic: c.topic,
        tier: c.tier.name(),
        deliverable: c.spec.deliverable,
        reference_style: c.reference_style.name(),
        title: c.plan.title,
        citations_target: c.tier.citations(),
        total_word_count: words,
        estimated_page_count: quality::pages(words),
        abstract_preview: if list.len() > 0 {
            Some(sections::preview(list[0].content, 900))
        } else {
            None
        },
        plan: c.plan,
        sections: list,
        sources: c.sources,
        references,
        markdown,
        quality,
        artifacts: None,
    }
}

pub open spec fn refused_error(quality: QualityView) -> Seq<char> {
    "Report failed quality gates after "@ + numbers::decimal(MAX_REPORT_REVISION_PASSES as nat)
        + " revision passes: "@ + quality::reasons_text(quality::report_reasons(quality))
}

/// A compiled report is accepted, revised, or given up after the last revision.
pub open spec fn judged(
    c: ReportContextView,
    pass: int,
    list: Seq<SectionView>,
    references: Seq<char>,
) -> ReportStepView {
    let markdown = rendering::report_text(c, list, references);
    let found = quality::report_quality(markdown, c.spec, c.tier.citations(), c.reference_style);
    if quality::report_accepted(found) {
        ReportStepView::Done {
            report: finished(c, list, references, markdown, found),
            progress: seq!["Quality checks passed. Assembling final PDF..."@],
        }
    } else if pass >= MAX_REPORT_REVISION_PASSES {
        ReportStepView::Failed { error: refused_error(found), progress: seq![] }
    } else {
        revising_from(c, pass, list, found, seq![], seq![], REVISION_PAUSE_SECS as int)
    }
}

/// What follows a reply on a report. A call that failed ends the work, but for the references: then
/// the sources make them up.
pub open spec fn report_step(w: ReportWorkView, answer: Result<Seq<char>, Seq<char>>) ->
    ReportStepView {
    let c = w.input;
    match (w.stage, answer) {
        (ReportStageView::Compiling { pass, list }, Ok(raw)) => judged(
            c,
            pass,
            list,
            sections::references(raw, c.reference_style),
        ),
        (ReportStageView::Compiling { pass, list }, Err(_)) => judged(
            c,
            pass,
            list,
            rendering::plain_references(c.sources, c.reference_style),
        ),
        (_, Err(error)) => ReportStepView::Failed { error, progress: seq![] },
        (
            ReportStageView::Drafting { index, summaries, drafted, deferred, section },
            Ok(raw),
        ) => {
            let b = c.spec.sections[index];
            match drafting::section_step(section, b, raw) {
                SectionStepView::Continue { work } => ReportStepView::Continue {
                    work: ReportWorkView {
                        input: c,
                        stage: ReportStageView::Drafting {
                            index,
                            summaries,
                            drafted,
                            deferred,
                            section: work,
                        },
                    },
                    progress: seq![],
                    pause_secs: 0,
                },
                SectionStepView::Done { section: done } => drafting_from(
                    c,
                    index + 1,
                    summaries,
                    if summaries {
                        drafted
                    } else {
                        drafted.push(done)
                    },
                    if summaries {
                        deferred.push(done)
                    } else {
                        deferred
                    },
                    seq![drafted_message(b.heading)],
                ),
                SectionStepView::Failed { error } => ReportStepView::Failed {
                    error,
                    progress: seq![],
                },
                SectionStepView::Stuck => ReportStepView::Stuck { progress: seq![] },
            }
        },
        (ReportStageView::Revising { pass, list, quality, revised, draft }, Ok(raw)) => {
            let b = c.spec.sections[revised.len() as int];
            match draft {
                None => ReportStepView::Continue {
                    work: ReportWorkView {
                        input: c,
                        stage: ReportStageView::Revising {
                            pass,
                            list,
                            quality,
                            revised,
                            draft: Some(sections::normalized(raw, b.heading)),
                        },
                    },
                    progress: seq![],
                    pause_secs: 0,
                },
                Some(_) => revising_from(
                    c,
                    pass,
                    list,
                    quality,
                    revised.push(
                        SectionView {
                            heading: b.heading,
                            target_words: b.target_words,
                            actual_words: quality::word_count(raw),
                            content: sections::normalized(raw, b.heading),
                        },
                    ),
                    seq![],
                    0,
                ),
            }
        },
    }
}

/// The first step of a report, once it has a plan.
pub open spec fn report_start(c: ReportContextView) -> ReportStepView {
    drafting_from(
        c,
        0,
        false,
        seq![],
        seq![],
        seq!["Plan created. Drafting core chapters..."@],
    )
}

// Laws

proof fn lemma_drafting_goes_on(
    c: ReportContextView,
    index: int,
    summaries: bool,
    drafted: Seq<SectionView>,
    deferred: Seq<SectionView>,
    progress: Seq<Seq<char>>,
)
    requires
        0 <= index <= c.spec.sections.len(),
        blueprint::all_sized(c.spec.sections),
        c.spec.minimum_words * blueprint::SECTION_WORD_FLOOR_PERCENT <= usize::MAX,
    ensures
        drafting_from(c, index, summaries, drafted, deferred, progress) matches
            ReportStepView::Continue { work, .. } ==> goes_on(work) && work.input == c && (
        work.stage is Compiling || (work.stage matches ReportStageView::Drafting {
            index: next,
            summaries: round,
            ..
        } && (round == summaries && next >= index || round && !summaries))),
        drafting_from(c, index, summaries, drafted, deferred, progress) !is Done,
    decreases
            (if summaries {
                0int
            } else {
                1int
            }),
            c.spec.sections.len() - index,
{
    let blueprints = c.spec.sections;
    if index >= blueprints.len() {
        if !summaries {
            lemma_drafting_goes_on(c, 0, true, drafted, deferred, progress);
        } else {
            blueprint::law_order(blueprints, drafted, deferred);
        }
    } else if blueprint::is_deferred(blueprints[index].heading) != summaries {
        lemma_drafting_goes_on(c, index + 1, summaries, drafted, deferred, progress);
    } else {
        match drafting::section_start(blueprints[index]) {
            SectionStepView::Done { section } => {
                lemma_drafting_goes_on(
                    c,
                    index + 1,
                    summaries,
                    if summaries {
                        drafted
                    } else {
                        drafted.push(section)
                    },
                    if summaries {
                        deferred.push(section)
                    } else {
                        deferred
                    },
                    progress.push(drafted_message(blueprints[index].heading)),
                );
            },
            _ => {},
        }
    }
}

proof fn lemma_revising_goes_on(
    c: ReportContextView,
    pass: int,
    list: Seq<SectionView>,
    quality: QualityView,
    revised: Seq<SectionView>,
    progress: Seq<Seq<char>>,
    pause_secs: int,
)
    requires
        blueprint::all_sized(c.spec.sections),
        c.spec.minimum_words * blueprint::SECTION_WORD_FLOOR_PERCENT <= usize::MAX,
        0 <= pass < MAX_REPORT_REVISION_PASSES,
        list.len() == c.spec.sections.len(),
        follows(list, c.spec.sections),
        follows(revised, c.spec.sections),
    ensures
        revising_from(c, pass, list, quality, revised, progress, pause_secs) matches
            ReportStepView::Continue { work, .. } && goes_on(work) && work.input == c && match
        work.stage {
            ReportStageView::Compiling { pass: next, .. } => next == pass + 1,
            ReportStageView::Revising { pass: same, revised: more, draft, .. } => same == pass
                && more.len() >= revised.len() && draft is None,
            _ => false,
        },
    decreases c.spec.sections.len() - revised.len(),
{
    let blueprints = c.spec.sections;
    let i = revised.len() as int;
    if i < blueprints.len() && !quality::revision_targets(list, blueprints, quality).contains(i) {
        assert(follows(revised.push(list[i]), blueprints));
        lemma_revising_goes_on(c, pass, list, quality, revised.push(list[i]), progress, pause_secs);
    }
}

/// A report that has begun, and every one that a reply does not end, can go on.
pub proof fn law_work_goes_on(w: ReportWorkView, answer: Result<Seq<char>, Seq<char>>)
    requires
        goes_on(w),
    ensures
        report_start(w.input) matches ReportStepView::Continue { work, .. } ==> goes_on(work)
            && work.input == w.input,
        report_step(w, answer) matches ReportStepView::Continue { work, .. } ==> goes_on(work)
            && work.input == w.input,
{
    let c = w.input;
    lemma_drafting_goes_on(
        c,
        0,
        false,
        seq![],
        seq![],
        seq!["Plan created. Drafting core chapters..."@],
    );
    lemma_step(w, answer);
}

/// How far the work has come, as numbers that fall.
pub open spec fn phase(w: ReportWorkView) -> int {
    match w.stage {
        ReportStageView::Drafting { .. } => 7,
        ReportStageView::Compiling { pass, .. } => 6 - 2 * pass,
        ReportStageView::Revising { pass, .. } => 5 - 2 * pass,
    }
}

/// The number of sections that are left in a phase.
pub open spec fn sections_left(w: ReportWorkView) -> int {
    let n = w.input.spec.sections.len() as int;
    match w.stage {
        ReportStageView::Drafting { index, summaries, .. } => if summaries {
            n - index
        } else {
            2 * n - index
        },
        ReportStageView::Compiling { .. } => 0,
        ReportStageView::Revising { revised, .. } => n - revised.len(),
    }
}

/// The number of replies that are left for a section, at most.
pub open spec fn replies_left(w: ReportWorkView) -> int {
    match w.stage {
        ReportStageView::Drafting { index, section, .. } => drafting::section_effort(
            section,
            w.input.spec.sections[index],
        ),
        ReportStageView::Compiling { .. } => 1,
        ReportStageView::Revising { draft, .. } => if draft is Some {
            1
        } else {
            2
        },
    }
}

/// Whether less is left to do in `b` than in `a`.
pub open spec fn comes_nearer(a: ReportWorkView, b: ReportWorkView) -> bool {
    ||| phase(b) < phase(a)
    ||| phase(b) == phase(a) && sections_left(b) < sections_left(a)
    ||| phase(b) == phase(a) && sections_left(b) == sections_left(a) && replies_left(b)
        < replies_left(a)
}

proof fn lemma_step(w: ReportWorkView, answer: Result<Seq<char>, Seq<char>>)
    requires
        goes_on(w),
    ensures
        report_step(w, answer) matches ReportStepView::Continue { work, .. } ==> goes_on(work)
            && work.input == w.input && comes_nearer(w, work),
{
    let c = w.input;
    match (w.stage, answer) {
        (ReportStageView::Compiling { pass, list }, _) => {
            let references = match answer {
                Ok(raw) => sections::references(raw, c.reference_style),
                Err(_) => rendering::plain_references(c.sources, c.reference_style),
            };
            let markdown = rendering::report_text(c, list, references);
            let found = quality::report_quality(
                markdown,
                c.spec,
                c.tier.citations(),
                c.reference_style,
            );
            if !quality::report_accepted(found) && pass < MAX_REPORT_REVISION_PASSES {
                lemma_revising_goes_on(
                    c,
                    pass,
                    list,
                    found,
                    seq![],
                    seq![],
                    REVISION_PAUSE_SECS as int,
                );
            }
        },
        (_, Err(error)) => {},
        (
            ReportStageView::Drafting { index, summaries, drafted, deferred, section },
            Ok(raw),
        ) => {
            let b = c.spec.sections[index];
            drafting::law_sections_end(section, b, raw);
            match drafting::section_step(section, b, raw) {
                SectionStepView::Done { section: done } => {
                    lemma_drafting_goes_on(
                        c,
                        index + 1,
                        summaries,
                        if summaries {
                            drafted
                        } else {
                            drafted.push(done)
                        },
                        if summaries {
                            deferred.push(done)
                        } else {
                            deferred
                        },
                        seq![drafted_message(b.heading)],
                    );
                },
                _ => {},
            }
        },
        (ReportStageView::Revising { pass, list, quality, revised, draft }, Ok(raw)) => {
            let b = c.spec.sections[revised.len() as int];
            if draft is Some {
                let done = SectionView {
                    heading: b.heading,
                    target_words: b.target_words,
                    actual_words: quality::word_count(raw),
                    content: sections::normalized(raw, b.heading),
                };
                assert(follows(revised.push(done), c.spec.sections));
                lemma_revising_goes_on(c, pass, list, quality, revised.push(done), seq![], 0);
            }
        },
    }
}

/// The work on a report ends: each reply that does not end it leaves less to do, and what is left
/// is never less than nothing.
pub proof fn law_work_ends(w: ReportWorkView, answer: Result<Seq<char>, Seq<char>>)
    requires
        goes_on(w),
    ensures
        phase(w) >= 0,
        sections_left(w) >= 0,
        replies_left(w) >= 0,
        report_step(w, answer) matches ReportStepView::Continue { work, .. } ==> comes_nearer(
            w,
            work,
        ),
{
    lemma_step(w, answer);
    match w.stage {
        ReportStageView::Drafting { index, section, .. } => {
            drafting::law_sections_end(section, w.input.spec.sections[index], seq![]);
        },
        _ => {},
    }
}

/// A finished report has passed the gates: it holds a section for every heading and in order, its
/// text is what its sections and references make up, and what was found of that text is accepted.
pub proof fn law_finished_reports_pass(w: ReportWorkView, answer: Result<Seq<char>, Seq<char>>)
    requires
        goes_on(w),
    ensures
        report_step(w, answer) matches ReportStepView::Done { report, .. } ==> quality::report_accepted(
            report.quality,
        ) && report.sections.len() == w.input.spec.sections.len() && follows(
            report.sections,
            w.input.spec.sections,
        ) && report.markdown == rendering::report_text(
            w.input,
            report.sections,
            report.references,
        ) && report.quality == quality::report_quality(
            report.markdown,
            w.input.spec,
            w.input.tier.citations(),
            w.input.reference_style,
        ),
{
    let c = w.input;
    match (w.stage, answer) {
        (ReportStageView::Compiling { pass, list }, _) => {
            let references = match answer {
                Ok(raw) => sections::references(raw, c.reference_style),
                Err(_) => rendering::plain_references(c.sources, c.reference_style),
            };
            let markdown = rendering::report_text(c, list, references);
            let found = quality::report_quality(
                markdown,
                c.spec,
                c.tier.citations(),
                c.reference_style,
            );
            if !quality::report_accepted(found) && pass < MAX_REPORT_REVISION_PASSES {
                lemma_revising_goes_on(
                    c,
                    pass,
                    list,
                    found,
                    seq![],
                    seq![],
                    REVISION_PAUSE_SECS as int,
                );
            }
        },
        (_, Err(error)) => {},
        (
            ReportStageView::Drafting { index, summaries, drafted, deferred, section },
            Ok(raw),
        ) => {
            let b = c.spec.sections[index];
            match drafting::section_step(section, b, raw) {
                SectionStepView::Done { section: done } => {
                    lemma_drafting_goes_on(
                        c,
                        index + 1,
                        summaries,
                        if summaries {
                            drafted
                        } else {
                            drafted.push(done)
                        },
                        if summaries {
                            deferred.push(done)
                        } else {
                            deferred
                        },
                        seq![drafted_message(b.heading)],
                    );
                },
                _ => {},
            }
        },
        (ReportStageView::Revising { pass, list, quality, revised, draft }, Ok(raw)) => {
            let b = c.spec.sections[revised.len() as int];
            if draft is Some {
                let done = SectionView {
                    heading: b.heading,
                    target_words: b.target_words,
                    actual_words: quality::word_count(raw),
                    content: sections::normalized(raw, b.heading),
                };
                assert(follows(revised.push(done), c.spec.sections));
                lemma_revising_goes_on(c, pass, list, quality, revised.push(done), seq![], 0);
            }
        },
    }
}

// The work itself

fn no_progress() -> (r: Vec<String>)
    ensures
        text::views(r@) == Seq::<Seq<char>>::empty(),
{
    let r: Vec<String> = Vec::new();
    assert(text::views(r@) =~= seq![]);
    r
}

fn one_message(message: String) -> (r: Vec<String>)
    ensures
        text::views(r@) == seq![message@],
{
    let r = vec![message];
    assert(text::views(r@) =~= seq![message@]);
    r
}

fn say_drafted(heading: &str) -> (r: String)
    ensures
        r@ == drafted_message(heading@),
{
    let mut r = text::copy("Drafted: ");
    r.append(heading);
    r
}

/// The section that is drafted next from an index on.
fn continue_drafting(
    input: ReportInput,
    index: usize,
    summaries: bool,
    drafted: Vec<ResearchSection>,
    deferred: Vec<ResearchSection>,
    progress: Vec<String>,
) -> (r: ReportStep)
    requires
        index <= input.spec.section_blueprints@.len(),
        blueprint::all_sized(input@.spec.sections),
    ensures
        r@ == drafting_from(
            input@,
            index as int,
            summaries,
            models::section_views(drafted@),
            models::section_views(deferred@),
            text::views(progress@),
        ),
    decreases
            (if summaries {
                0int
            } else {
                1int
            }),
            input.spec.section_blueprints@.len() - index,
{
    assert(input@.spec.sections.len() == input.spec.section_blueprints@.len());
    if index >= input.spec.section_blueprints.len() {
        if !summaries {
            return continue_drafting(input, 0, true, drafted, deferred, progress);
        }
        return match blueprint::assemble_sections_in_spec_order(&input.spec, &drafted, &deferred) {
            Err(error) => ReportStep::Failed { error, progress },
            Ok(list) => {
                let mut told = progress;
                told.push(
                    text::copy("Compiling references and running academic quality checks..."),
                );
                ReportStep::Continue {
                    work: ReportWork { input, stage: ReportStage::Compiling { pass: 0, list } },
                    progress: told,
                    pause_secs: 0,
                }
            },
        };
    }
    let blueprint = &input.spec.section_blueprints[index];
    assert(input@.spec.sections[index as int] == blueprint@);
    assert(blueprint::is_sized(input@.spec.sections[index as int]));
    let heading = blueprint.heading;
    if blueprint::should_defer_section_generation(heading) != summaries {
        return continue_drafting(input, index + 1, summaries, drafted, deferred, progress);
    }
    match SectionWork::start(blueprint) {
        SectionStep::Continue { work } => ReportStep::Continue {
            work: ReportWork {
                input,
                stage: ReportStage::Drafting {
                    index,
                    summaries,
                    drafted,
                    deferred,
                    section: work,
                },
            },
            progress,
            pause_secs: 0,
        },
        SectionStep::Done { section } => {
            let mut told = progress;
            told.push(say_drafted(heading));
            let mut first = drafted;
            let mut last = deferred;
            if summaries {
                last.push(section);
            } else {
                first.push(section);
            }
            continue_drafting(input, index + 1, summaries, first, last, told)
        },
        SectionStep::Failed { error } => ReportStep::Failed { error, progress },
        SectionStep::Stuck => ReportStep::Stuck { progress },
    }
}

/// Whether an index is among the targets of a revision.
fn is_target(targets: &Vec<usize>, i: usize) -> (r: bool)
    ensures
        r == quality::indices(targets@).contains(i as int),
{
    let mut k: usize = 0;
    while k < targets.len()
        invariant
            k <= targets@.len(),
            forall|j: int| 0 <= j < k ==> targets@[j] != i,
        decreases targets@.len() - k,
    {
        if targets[k] == i {
            assert(quality::indices(targets@)[k as int] == i);
            return true;
        }
        k += 1;
    }
    assert(!quality::indices(targets@).contains(i as int)) by {
        if quality::indices(targets@).contains(i as int) {
            let j = choose|j: int|
                0 <= j < quality::indices(targets@).len() && quality::indices(targets@)[j] == i;
            assert(targets@[j] == i);
        }
    }
    false
}

/// The section that is revised next.
fn continue_revising(
    input: ReportInput,
    pass: usize,
    list: Vec<ResearchSection>,
    quality: ResearchQualityReport,
    revised: Vec<ResearchSection>,
    pause_secs: u64,
) -> (r: ReportStep)
    requires
        blueprint::all_sized(input@.spec.sections),
        pass < MAX_REPORT_REVISION_PASSES,
        list@.len() == input.spec.section_blueprints@.len(),
        revised@.len() <= list@.len(),
    ensures
        r@ == revising_from(
            input@,
            pass as int,
            models::section_views(list@),
            quality@,
            models::section_views(revised@),
            seq![],
            pause_secs as int,
        ),
{
    let ghost c = input@;
    let ghost all = models::section_views(list@);
    assert(c.spec.sections.len() == input.spec.section_blueprints@.len());
    let targets = quality::identify_sections_for_revision(&list, &input.spec, &quality);
    let mut done = revised;
    let ghost start = models::section_views(revised@);
    while done.len() < list.len() && !is_target(&targets, done.len())
        invariant
            c == input@,
            all == models::section_views(list@),
            list@.len() == input.spec.section_blueprints@.len(),
            c.spec.sections.len() == list@.len(),
            done@.len() <= list@.len(),
            quality::indices(targets@) == quality::revision_targets(
                all,
                c.spec.sections,
                quality@,
            ),
            revising_from(
                c,
                pass as int,
                all,
                quality@,
                start,
                seq![],
                pause_secs as int,
            ) == revising_from(
                c,
                pass as int,
                all,
                quality@,
                models::section_views(done@),
                seq![],
                pause_secs as int,
            ),
        decreases list@.len() - done@.len(),
    {
        let i = done.len();
        assert(all[i as int] == list@[i as int]@);
        assert(models::section_views(done@).len() == done@.len());
        done.push(list[i].clone());
    }
    assert(models::section_views(done@).len() == done@.len());
    if done.len() >= list.len() {
        let told = one_message(
            text::copy("Compiling references and running academic quality checks..."),
        );
        assert(seq![].push("Compiling references and running academic quality checks..."@)
            =~= text::views(told@));
        return ReportStep::Continue {
            work: ReportWork {
                input,
                stage: ReportStage::Compiling { pass: pass + 1, list: done },
            },
            progress: told,
            pause_secs,
        };
    }
    ReportStep::Continue {
        work: ReportWork {
            input,
            stage: ReportStage::Revising { pass, list, quality, revised: done, draft: None },
        },
        progress: no_progress(),
        pause_secs,
    }
}

/// Judges a compiled report.
fn judge(input: ReportInput, pass: usize, list: Vec<ResearchSection>, references: String) -> (r:
    ReportStep)
    requires
        blueprint::all_sized(input@.spec.sections),
        input.spec.minimum_words * blueprint::SECTION_WORD_FLOOR_PERCENT <= usize::MAX,
        list@.len() == input.spec.section_blueprints@.len(),
    ensures
        r@ == judged(input@, pass as int, models::section_views(list@), references@),
{
    let context = ReportContext {
        topic: input.topic.as_str(),
        tier: input.tier,
        reference_style: input.reference_style,
        plan: &input.plan,
        sources: &input.sources,
        spec: &input.spec,
    };
    assert(context@ == input@);
    let markdown = rendering::assemble_report_markdown(&context, &list, references.as_str());
    let citation_target = input.tier.citation_target();
    let quality = quality::analyze_report_quality(
        markdown.as_str(),
        &input.spec,
        citation_target,
        &input.reference_style,
    );
    if quality::report_quality_passes(&quality) {
        let told = one_message(text::copy("Quality checks passed. Assembling final PDF..."));
        let words = quality::count_words(markdown.as_str());
        assert(models::section_views(list@).len() == list@.len());
        let abstract_preview = if list.len() > 0 {
            assert(models::section_views(list@)[0] == list@[0]@);
            Some(sections::section_body_preview(list[0].content.as_str(), 900))
        } else {
            None
        };
        let report = ResearchReport {
            tier: text::copy(input.tier.label()),
            deliverable: text::copy(input.spec.deliverable),
            reference_style: text::copy(input.reference_style.label()),
            title: text::copy(input.plan.title.as_str()),
            citations_target: citation_target,
            total_word_count: words,
            estimated_page_count: quality::estimate_page_count(words),
            abstract_preview,
            topic: input.topic,
            plan: input.plan,
            sections: list,
            sources: input.sources,
            references,
            markdown,
            quality,
            artifacts: None,
        };
        return ReportStep::Done { report, progress: told };
    }
    if pass >= MAX_REPORT_REVISION_PASSES {
        let mut error = text::copy("Report failed quality gates after ");
        numbers::push_decimal(&mut error, MAX_REPORT_REVISION_PASSES as u64);
        error.append(" revision passes: ");
        let summary = quality::report_failure_summary(&quality);
        error.append(summary.as_str());
        return ReportStep::Failed { error, progress: no_progress() };
    }
    let revised: Vec<ResearchSection> = Vec::new();
    assert(models::section_views(revised@) =~= seq![]);
    continue_revising(input, pass, list, quality, revised, REVISION_PAUSE_SECS)
}

/// The content of an answer.
pub open spec fn answer_view(answer: Result<String, String>) -> Result<Seq<char>, Seq<char>> {
    match answer {
        Ok(t) => Ok(t@),
        Err(e) => Err(e@),
    }
}

impl ReportWork {
    /// Begins a report that has a plan.
    pub fn start(
        topic: &str,
        tier: ResearchTier,
        reference_style: ReferenceStyle,
        plan: ResearchPlan,
        sources: Vec<ResearchSource>,
    ) -> (r: ReportStep)
        ensures
            r@ == report_start(
                ReportContextView {
                    topic: topic@,
                    tier,
                    reference_style,
                    plan: plan@,
                    sources: models::source_views(sources@),
                    spec: blueprint::document_of(tier),
                },
            ),
            r matches ReportStep::Continue { work, .. } ==> goes_on(work@),
    {
        let spec = blueprint::document_spec_for_tier(&tier);
        let input = ReportInput {
            topic: text::copy(topic),
            tier,
            reference_style,
            plan,
            sources,
            spec,
        };
        proof {
            blueprint::law_tiers_are_sized(tier);
        }
        let drafted: Vec<ResearchSection> = Vec::new();
        let deferred: Vec<ResearchSection> = Vec::new();
        assert(models::section_views(drafted@) =~= seq![]);
        assert(models::section_views(deferred@) =~= seq![]);
        let told = one_message(text::copy("Plan created. Drafting core chapters..."));
        proof {
            lemma_drafting_goes_on(
                input@,
                0,
                false,
                seq![],
                seq![],
                seq!["Plan created. Drafting core chapters..."@],
            );
        }
        continue_drafting(input, 0, false, drafted, deferred, told)
    }

    /// What a model is asked next.
    pub fn request(&self) -> (r: ModelRequest)
        requires
            goes_on(self@),
        ensures
            r@ == report_request(self@),
    {
        let input = &self.input;
        let ghost c = self@.input;
        assert(c.spec.sections.len() == input.spec.section_blueprints@.len());
        match &self.stage {
            ReportStage::Drafting { index, summaries, drafted, deferred, section } => {
                let context = section_context_of(input, drafted);
                let blueprint = &input.spec.section_blueprints[*index];
                assert(c.spec.sections[*index as int] == blueprint@);
                assert(blueprint::is_sized(c.spec.sections[*index as int]));
                section.request(&context, blueprint)
            },
            ReportStage::Compiling { pass, list } => {
                let context = ReportContext {
                    topic: input.topic.as_str(),
                    tier: input.tier,
                    reference_style: input.reference_style,
                    plan: &input.plan,
                    sources: &input.sources,
                    spec: &input.spec,
                };
                assert(context@ == c);
                drafting::ask(prompts::build_references_prompt(&context, list), 20, 2_048)
            },
            ReportStage::Revising { pass, list, quality, revised, draft } => {
                assert(models::section_views(revised@).len() == revised@.len());
                assert(models::section_views(list@).len() == list@.len());
                let i = revised.len();
                let context = section_context_of(input, revised);
                let blueprint = &input.spec.section_blueprints[i];
                assert(c.spec.sections[i as int] == blueprint@);
                assert(blueprint::is_sized(c.spec.sections[i as int]));
                assert(models::section_views(list@)[i as int] == list@[i as int]@);
                let tokens = blueprint::section_token_budget(blueprint);
                match draft {
                    Some(t) => drafting::ask(
                        prompts::build_section_review_prompt(&context, blueprint, t.as_str()),
                        15,
                        tokens,
                    ),
                    None => {
                        let reasons = quality::summarize_section_revision_need(
                            &list[i],
                            blueprint,
                            quality,
                        );
                        drafting::ask(
                            prompts::build_section_revision_prompt(
                                &context,
                                blueprint,
                                list[i].content.as_str(),
                                reasons.as_str(),
                            ),
                            20,
                            tokens,
                        )
                    },
                }
            },
        }
    }

    /// What follows the answer of a model, or the failure of the call.
    pub fn reply(self, answer: Result<String, String>) -> (r: ReportStep)
        requires
            goes_on(self@),
        ensures
            r@ == report_step(self@, answer_view(answer)),
            r matches ReportStep::Continue { work, .. } ==> goes_on(work@),
    {
        proof {
            lemma_step(self@, answer_view(answer));
        }
        let input = self.input;
        let ghost c = input@;
        assert(c.spec.sections.len() == input.spec.section_blueprints@.len());
        match self.stage {
            ReportStage::Compiling { pass, list } => {
                let references = match answer {
                    Ok(raw) => sections::normalize_references_section(
                        raw.as_str(),
                        &input.reference_style,
                    ),
                    Err(_) => rendering::fallback_references(
                        &input.sources,
                        &input.reference_style,
                    ),
                };
                judge(input, pass, list, references)
            },
            ReportStage::Drafting { index, summaries, drafted, deferred, section } => match answer {
                Ok(raw) => drafting_reply(
                    input,
                    index,
                    summaries,
                    drafted,
                    deferred,
                    section,
                    raw.as_str(),
                ),
                Err(error) => ReportStep::Failed { error, progress: no_progress() },
            },
            ReportStage::Revising { pass, list, quality, revised, draft } => match answer {
                Ok(raw) => revising_reply(input, pass, list, quality, revised, draft, raw.as_str()),
                Err(error) => ReportStep::Failed { error, progress: no_progress() },
            },
        }
    }
}

/// What follows a reply on a section that is drafted.
fn drafting_reply(
    input: ReportInput,
    index: usize,
    summaries: bool,
    drafted: Vec<ResearchSection>,
    deferred: Vec<ResearchSection>,
    section: SectionWork,
    raw: &str,
) -> (r: ReportStep)
    requires
        blueprint::all_sized(input@.spec.sections),
        index < input.spec.section_blueprints@.len(),
        drafting::section_goes_on(section@, input@.spec.sections[index as int]),
    ensures
        r@ == report_step(
            ReportWorkView {
                input: input@,
                stage: ReportStageView::Drafting {
                    index: index as int,
                    summaries,
                    drafted: models::section_views(drafted@),
                    deferred: models::section_views(deferred@),
                    section: section@,
                },
            },
            Ok(raw@),
        ),
{
    let ghost c = input@;
    assert(c.spec.sections.len() == input.spec.section_blueprints@.len());
    let count = input.spec.section_blueprints.len();
    assert(index < count);
    let blueprint = &input.spec.section_blueprints[index];
    assert(c.spec.sections[index as int] == blueprint@);
    assert(blueprint::is_sized(c.spec.sections[index as int]));
    let heading = blueprint.heading;
    match section.reply(blueprint, raw) {
        SectionStep::Continue { work } => ReportStep::Continue {
            work: ReportWork {
                input,
                stage: ReportStage::Drafting {
                    index,
                    summaries,
                    drafted,
                    deferred,
                    section: work,
                },
            },
            progress: no_progress(),
            pause_secs: 0,
        },
        SectionStep::Done { section: done } => {
            let told = one_message(say_drafted(heading));
            let mut first = drafted;
            let mut last = deferred;
            if summaries {
                last.push(done);
            } else {
                first.push(done);
            }
            continue_drafting(input, index + 1, summaries, first, last, told)
        },
        SectionStep::Failed { error } => ReportStep::Failed { error, progress: no_progress() },
        SectionStep::Stuck => ReportStep::Stuck { progress: no_progress() },
    }
}

/// What follows a reply on a section that is revised.
fn revising_reply(
    input: ReportInput,
    pass: usize,
    list: Vec<ResearchSection>,
    quality: ResearchQualityReport,
    revised: Vec<ResearchSection>,
    draft: Option<String>,
    raw: &str,
) -> (r: ReportStep)
    requires
        blueprint::all_sized(input@.spec.sections),
        pass < MAX_REPORT_REVISION_PASSES,
        list@.len() == input.spec.section_blueprints@.len(),
        revised@.len() < list@.len(),
    ensures
        r@ == report_step(
            ReportWorkView {
                input: input@,
                stage: ReportStageView::Revising {
                    pass: pass as int,
                    list: models::section_views(list@),
                    quality: quality@,
                    revised: models::section_views(revised@),
                    draft: text::opt_view(draft),
                },
            },
            Ok(raw@),
        ),
{
    let ghost c = input@;
    assert(c.spec.sections.len() == input.spec.section_blueprints@.len());
    assert(models::section_views(revised@).len() == revised@.len());
    let blueprint = &input.spec.section_blueprints[revised.len()];
    assert(c.spec.sections[revised@.len() as int] == blueprint@);
    let content = sections::normalize_section_markdown(raw, blueprint.heading);
    if draft.is_none() {
        return ReportStep::Continue {
            work: ReportWork {
                input,
                stage: ReportStage::Revising {
                    pass,
                    list,
                    quality,
                    revised,
                    draft: Some(content),
                },
            },
            progress: no_progress(),
            pause_secs: 0,
        };
    }
    let done = ResearchSection {
        heading: text::copy(blueprint.heading),
        target_words: blueprint.target_words,
        actual_words: quality::count_words(raw),
        content,
    };
    let mut more = revised;
    more.push(done);
    continue_revising(input, pass, list, quality, more, 0)
}

fn section_context_of<'a>(input: &'a ReportInput, previous: &'a Vec<ResearchSection>) -> (r:
    SectionGenerationContext<'a>)
    ensures
        r@ == section_context(input@, models::section_views(previous@)),
{
    SectionGenerationContext {
        topic: input.topic.as_str(),
        tier: input.tier,
        reference_style: input.reference_style,
        plan: &input.plan,
        sources: &input.sources,
        previous_sections: previous,
    }
}

} // verus!
