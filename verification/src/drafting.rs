//! Writing a section: which model call comes next, what is made of its reply, and when the section
//! is done or given up.
//!
//! A section is written part by part, each part drafted and then edited; the assembled section is
//! revised until it passes the gates.

use crate::blueprint;
use crate::blueprint::{BlueprintView, PartView, SectionBlueprint, SectionPartBlueprint};
use crate::model_call::{ModelKind, ModelRequest, RequestView};
use crate::models::{ResearchSection, SectionView};
use crate::numbers;
use crate::outline;
use crate::prompts;
use crate::prompts::{ContextView, SectionGenerationContext};
use crate::quality;
use crate::sections;
use crate::text;
use vstd::prelude::*;

verus! {

broadcast use text::lemma_views_push;

/// How often a section is judged before it is given up.
pub const MAX_SECTION_DRAFT_ATTEMPTS: usize = 4;

/// How often a part of a section is judged before it is given up.
pub const MAX_SECTION_PART_ATTEMPTS: usize = 3;

pub open spec fn prose_request(prompt: Seq<char>, temperature: int, tokens: int) -> RequestView {
    RequestView {
        kind: ModelKind::Prose,
        system: prompts::PROFESSOR_SYSTEM_PROMPT@,
        prompt,
        temperature_percent: temperature,
        max_output_tokens: tokens,
    }
}

pub(crate) fn ask(prompt: String, temperature_percent: u32, max_output_tokens: u32) -> (r: ModelRequest)
    ensures
        r@ == prose_request(prompt@, temperature_percent as int, max_output_tokens as int),
{
    ModelRequest {
        kind: ModelKind::Prose,
        system: prompts::PROFESSOR_SYSTEM_PROMPT,
        prompt,
        temperature_percent,
        max_output_tokens,
    }
}

// Parts of sections

/// The work on a part of a section: the refused text and the reasons, if there was an attempt
/// before this one, and the draft, if it waits for the editor.
#[derive(Debug)]
pub struct PartWork {
    pub attempt: usize,
    pub working: Option<String>,
    pub failure: String,
    pub draft: Option<String>,
}

pub struct PartWorkView {
    pub attempt: int,
    pub working: Option<Seq<char>>,
    pub failure: Seq<char>,
    pub draft: Option<Seq<char>>,
}

impl View for PartWork {
    type V = PartWorkView;

    open spec fn view(&self) -> PartWorkView {
        PartWorkView {
            attempt: self.attempt as int,
            working: text::opt_view(self.working),
            failure: self.failure@,
            draft: text::opt_view(self.draft),
        }
    }
}

/// What follows a reply: more work, the finished part, or the end of it. `Stuck` is for notes that
/// cannot be rewritten.
#[derive(Debug)]
pub enum PartStep {
    Continue { work: PartWork },
    Done { text: String },
    Failed { error: String },
    Stuck,
}

pub enum PartStepView {
    Continue { work: PartWorkView },
    Done { text: Seq<char> },
    Failed { error: Seq<char> },
    Stuck,
}

impl View for PartStep {
    type V = PartStepView;

    open spec fn view(&self) -> PartStepView {
        match self {
            PartStep::Continue { work } => PartStepView::Continue { work: work@ },
            PartStep::Done { text } => PartStepView::Done { text: text@ },
            PartStep::Failed { error } => PartStepView::Failed { error: error@ },
            PartStep::Stuck => PartStepView::Stuck,
        }
    }
}

/// The work on a part before anything was written.
pub open spec fn fresh_part() -> PartWorkView {
    PartWorkView { attempt: 0, working: None, failure: seq![], draft: None }
}

/// What a model is asked next for a part.
pub open spec fn part_request(
    w: PartWorkView,
    c: ContextView,
    b: BlueprintView,
    p: PartView,
    done: Seq<Seq<char>>,
) -> RequestView {
    let tokens = blueprint::part_tokens(p.target_words);
    match w.draft {
        Some(draft) => prose_request(prompts::part_review_prompt(c, b, p, draft), 15, tokens),
        None => match w.working {
            Some(text) => prose_request(
                prompts::part_revision_prompt(c, b, p, done, text, w.failure),
                18,
                tokens,
            ),
            None => prose_request(prompts::part_prompt(c, b, p, done), 30, tokens),
        },
    }
}

pub open spec fn part_error(b: BlueprintView, p: PartView, failure: Seq<char>) -> Seq<char> {
    "Section '"@ + b.heading + "' fragment '"@ + p.label + "' failed quality checks after "@
        + numbers::decimal(MAX_SECTION_PART_ATTEMPTS as nat) + " attempts: "@ + failure
}

/// What follows a reply on a part: a draft goes to the editor; what the editor returns is judged.
pub open spec fn part_step(
    w: PartWorkView,
    b: BlueprintView,
    p: PartView,
    raw: Seq<char>,
) -> PartStepView {
    let fragment = sections::part(raw);
    if !outline::converts(fragment) {
        PartStepView::Stuck
    } else {
        let text = outline::prose(fragment);
        let found = quality::part_assessment(text, p);
        let failure = quality::reasons_text(found.reasons());
        if w.draft is None {
            PartStepView::Continue { work: PartWorkView { draft: Some(text), ..w } }
        } else if found.is_accepted() {
            PartStepView::Done { text }
        } else if w.attempt + 1 >= MAX_SECTION_PART_ATTEMPTS {
            PartStepView::Failed { error: part_error(b, p, failure) }
        } else {
            PartStepView::Continue {
                work: PartWorkView {
                    attempt: w.attempt + 1,
                    working: Some(text),
                    failure,
                    draft: None,
                },
            }
        }
    }
}

/// The number of replies that the work on a part can still take.
pub open spec fn part_effort(w: PartWorkView) -> int {
    2 * (MAX_SECTION_PART_ATTEMPTS - w.attempt) - (if w.draft is Some {
        1int
    } else {
        0int
    })
}

impl PartWork {
    /// The work on a part before anything was written.
    pub fn new() -> (r: PartWork)
        ensures
            r@ == fresh_part(),
    {
        let failure = String::new();
        assert(failure@ =~= seq![]);
        PartWork { attempt: 0, working: None, failure, draft: None }
    }

    /// What a model is asked next.
    pub fn request(
        &self,
        context: &SectionGenerationContext,
        blueprint: &SectionBlueprint,
        part: &SectionPartBlueprint,
        completed_parts: &Vec<String>,
    ) -> (r: ModelRequest)
        requires
            part.target_words * blueprint::SECTION_PART_WORD_FLOOR_PERCENT <= usize::MAX,
        ensures
            r@ == part_request(
                self@,
                context@,
                blueprint@,
                part@,
                text::views(completed_parts@),
            ),
    {
        let tokens = blueprint::section_part_token_budget(part);
        match &self.draft {
            Some(draft) => ask(
                prompts::build_section_part_review_prompt(context, blueprint, part, draft.as_str()),
                15,
                tokens,
            ),
            None => match &self.working {
                Some(text) => ask(
                    prompts::build_section_part_revision_prompt(
                        context,
                        blueprint,
                        part,
                        completed_parts,
                        text.as_str(),
                        self.failure.as_str(),
                    ),
                    18,
                    tokens,
                ),
                None => ask(
                    prompts::build_section_part_prompt(context, blueprint, part, completed_parts),
                    30,
                    tokens,
                ),
            },
        }
    }

    /// What follows a reply.
    pub fn reply(self, blueprint: &SectionBlueprint, part: &SectionPartBlueprint, raw: &str) -> (r:
        PartStep)
        requires
            part.target_words * blueprint::SECTION_PART_WORD_FLOOR_PERCENT <= usize::MAX,
            self.attempt < MAX_SECTION_PART_ATTEMPTS,
        ensures
            r@ == part_step(self@, blueprint@, part@, raw@),
    {
        let fragment = sections::normalize_section_part(raw);
        let text = match outline::try_convert_outline_fragment_to_prose(fragment.as_str()) {
            Some(t) => t,
            None => {
                return PartStep::Stuck;
            },
        };
        if self.draft.is_none() {
            return PartStep::Continue {
                work: PartWork {
                    attempt: self.attempt,
                    working: self.working,
                    failure: self.failure,
                    draft: Some(text),
                },
            };
        }
        let found = quality::evaluate_section_part_quality(text.as_str(), part);
        if found.passes() {
            return PartStep::Done { text };
        }
        let failure = found.failure_summary();
        if self.attempt + 1 >= MAX_SECTION_PART_ATTEMPTS {
            let mut error = text::copy("Section '");
            error.append(blueprint.heading);
            error.append("' fragment '");
            error.append(part.label);
            error.append("' failed quality checks after ");
            numbers::push_decimal(&mut error, MAX_SECTION_PART_ATTEMPTS as u64);
            error.append(" attempts: ");
            error.append(failure.as_str());
            return PartStep::Failed { error };
        }
        PartStep::Continue {
            work: PartWork {
                attempt: self.attempt + 1,
                working: Some(text),
                failure,
                draft: None,
            },
        }
    }
}

// Sections

/// The revision of a section: the refused text and the reasons.
#[derive(Debug)]
pub struct SectionRevision {
    pub attempt: usize,
    pub draft: String,
    pub failure: String,
}

pub struct RevisionView {
    pub attempt: int,
    pub draft: Seq<char>,
    pub failure: Seq<char>,
}

impl View for SectionRevision {
    type V = RevisionView;

    open spec fn view(&self) -> RevisionView {
        RevisionView {
            attempt: self.attempt as int,
            draft: self.draft@,
            failure: self.failure@,
        }
    }
}

/// The work on a section: its finished parts and the work on the next, or its revision.
#[derive(Debug)]
pub struct SectionWork {
    pub parts: Vec<String>,
    pub part: PartWork,
    pub revision: Option<SectionRevision>,
}

pub struct SectionWorkView {
    pub parts: Seq<Seq<char>>,
    pub part: PartWorkView,
    pub revision: Option<RevisionView>,
}

impl View for SectionWork {
    type V = SectionWorkView;

    open spec fn view(&self) -> SectionWorkView {
        SectionWorkView {
            parts: text::views(self.parts@),
            part: self.part@,
            revision: match self.revision {
                Some(r) => Some(r@),
                None => None,
            },
        }
    }
}

/// What follows a reply: more work, the finished section, or the end of it.
#[derive(Debug)]
pub enum SectionStep {
    Continue { work: SectionWork },
    Done { section: ResearchSection },
    Failed { error: String },
    Stuck,
}

pub enum SectionStepView {
    Continue { work: SectionWorkView },
    Done { section: SectionView },
    Failed { error: Seq<char> },
    Stuck,
}

impl View for SectionStep {
    type V = SectionStepView;

    open spec fn view(&self) -> SectionStepView {
        match self {
            SectionStep::Continue { work } => SectionStepView::Continue { work: work@ },
            SectionStep::Done { section } => SectionStepView::Done { section: section@ },
            SectionStep::Failed { error } => SectionStepView::Failed { error: error@ },
            SectionStep::Stuck => SectionStepView::Stuck,
        }
    }
}

/// Work on a section that can go on.
pub open spec fn section_goes_on(w: SectionWorkView, b: BlueprintView) -> bool {
    match w.revision {
        Some(r) => 1 <= r.attempt < MAX_SECTION_DRAFT_ATTEMPTS,
        None => w.parts.len() < b.parts.len() && 0 <= w.part.attempt < MAX_SECTION_PART_ATTEMPTS,
    }
}

pub open spec fn section_error(b: BlueprintView, failure: Seq<char>) -> Seq<char> {
    "Section '"@ + b.heading + "' failed quality checks after "@ + numbers::decimal(
        MAX_SECTION_DRAFT_ATTEMPTS as nat,
    ) + " attempts: "@ + failure
}

/// A section is accepted, revised, or given up after the last attempt.
pub open spec fn section_judged(b: BlueprintView, content: Seq<char>, attempt: int) ->
    SectionStepView {
    let found = quality::assessment(content, b);
    let failure = quality::reasons_text(found.reasons());
    if found.is_accepted() {
        SectionStepView::Done {
            section: SectionView {
                heading: b.heading,
                target_words: b.target_words,
                actual_words: quality::word_count(content),
                content,
            },
        }
    } else if attempt + 1 >= MAX_SECTION_DRAFT_ATTEMPTS {
        SectionStepView::Failed { error: section_error(b, failure) }
    } else {
        SectionStepView::Continue {
            work: SectionWorkView {
                parts: seq![],
                part: fresh_part(),
                revision: Some(RevisionView { attempt: attempt + 1, draft: content, failure }),
            },
        }
    }
}

/// The section that its parts make up is judged once without a model.
pub open spec fn section_seeded(b: BlueprintView, parts: Seq<Seq<char>>) -> SectionStepView {
    let seed = sections::normalized(sections::assembled(b.heading, parts), b.heading);
    let draft = sections::section_prose(seed, b.heading);
    if !sections::section_converts(seed, b.heading) || !sections::section_converts(
        draft,
        b.heading,
    ) {
        SectionStepView::Stuck
    } else {
        section_judged(b, sections::section_prose(draft, b.heading), 0)
    }
}

/// The work on a section before anything was written.
pub open spec fn section_start(b: BlueprintView) -> SectionStepView {
    if b.parts.len() == 0 {
        section_seeded(b, seq![])
    } else {
        SectionStepView::Continue {
            work: SectionWorkView { parts: seq![], part: fresh_part(), revision: None },
        }
    }
}

/// What a model is asked next for a section.
pub open spec fn section_request(w: SectionWorkView, c: ContextView, b: BlueprintView) ->
    RequestView {
    match w.revision {
        Some(r) => prose_request(
            prompts::section_revision_prompt(c, b, r.draft, r.failure),
            20,
            blueprint::section_tokens(b.target_words),
        ),
        None => part_request(w.part, c, b, b.parts[w.parts.len() as int], w.parts),
    }
}

/// What follows a reply on a section.
pub open spec fn section_step(w: SectionWorkView, b: BlueprintView, raw: Seq<char>) ->
    SectionStepView {
    match w.revision {
        Some(r) => {
            let draft = sections::normalized(raw, b.heading);
            if !sections::section_converts(draft, b.heading) {
                SectionStepView::Stuck
            } else {
                section_judged(b, sections::section_prose(draft, b.heading), r.attempt)
            }
        },
        None => match part_step(w.part, b, b.parts[w.parts.len() as int], raw) {
            PartStepView::Continue { work } => SectionStepView::Continue {
                work: SectionWorkView { part: work, ..w },
            },
            PartStepView::Done { text } => {
                let parts = w.parts.push(text);
                if parts.len() >= b.parts.len() {
                    section_seeded(b, parts)
                } else {
                    SectionStepView::Continue {
                        work: SectionWorkView { parts, part: fresh_part(), revision: None },
                    }
                }
            },
            PartStepView::Failed { error } => SectionStepView::Failed { error },
            PartStepView::Stuck => SectionStepView::Stuck,
        },
    }
}

/// The number of replies that the work on a section can still take, at most.
pub open spec fn section_effort(w: SectionWorkView, b: BlueprintView) -> int {
    match w.revision {
        Some(r) => MAX_SECTION_DRAFT_ATTEMPTS - r.attempt,
        None => MAX_SECTION_DRAFT_ATTEMPTS + 6 * (b.parts.len() - w.parts.len() - 1) + part_effort(
            w.part,
        ),
    }
}

/// A finished section was accepted by the gates, and stands under its heading.
pub proof fn law_done_sections_are_accepted(w: SectionWorkView, b: BlueprintView, raw: Seq<char>)
    ensures
        section_step(w, b, raw) matches SectionStepView::Done { section } ==> section.heading
            == b.heading && section.target_words == b.target_words && section.actual_words
            == quality::word_count(section.content) && quality::assessment(
            section.content,
            b,
        ).is_accepted() && sections::heading_line(b.heading).is_prefix_of(section.content),
{
    match w.revision {
        Some(r) => {
            let draft = sections::normalized(raw, b.heading);
            sections::law_prose_opens_with_heading(draft, b.heading);
        },
        None => match part_step(w.part, b, b.parts[w.parts.len() as int], raw) {
            PartStepView::Done { text } => {
                let parts = w.parts.push(text);
                let seed = sections::normalized(sections::assembled(b.heading, parts), b.heading);
                sections::law_prose_opens_with_heading(
                    sections::section_prose(seed, b.heading),
                    b.heading,
                );
            },
            _ => {},
        },
    }
}

/// The work on a section ends: each reply that does not end it leaves less to do.
pub proof fn law_sections_end(w: SectionWorkView, b: BlueprintView, raw: Seq<char>)
    requires
        section_goes_on(w, b),
    ensures
        section_effort(w, b) > 0,
        section_step(w, b, raw) matches SectionStepView::Continue { work } ==> section_goes_on(
            work,
            b,
        ) && section_effort(work, b) < section_effort(w, b),
{
}

fn judge_section(blueprint: &SectionBlueprint, content: String, attempt: usize) -> (r: SectionStep)
    requires
        blueprint.target_words * blueprint::SECTION_WORD_FLOOR_PERCENT <= usize::MAX,
        attempt < MAX_SECTION_DRAFT_ATTEMPTS,
    ensures
        r@ == section_judged(blueprint@, content@, attempt as int),
{
    let found = quality::evaluate_section_quality(content.as_str(), blueprint);
    if found.passes() {
        return SectionStep::Done {
            section: ResearchSection {
                heading: text::copy(blueprint.heading),
                target_words: blueprint.target_words,
                actual_words: quality::count_words(content.as_str()),
                content,
            },
        };
    }
    let failure = found.failure_summary();
    if attempt + 1 >= MAX_SECTION_DRAFT_ATTEMPTS {
        let mut error = text::copy("Section '");
        error.append(blueprint.heading);
        error.append("' failed quality checks after ");
        numbers::push_decimal(&mut error, MAX_SECTION_DRAFT_ATTEMPTS as u64);
        error.append(" attempts: ");
        error.append(failure.as_str());
        return SectionStep::Failed { error };
    }
    let parts: Vec<String> = Vec::new();
    assert(text::views(parts@) =~= seq![]);
    SectionStep::Continue {
        work: SectionWork {
            parts,
            part: PartWork::new(),
            revision: Some(SectionRevision { attempt: attempt + 1, draft: content, failure }),
        },
    }
}

fn seed_section(blueprint: &SectionBlueprint, parts: &Vec<String>) -> (r: SectionStep)
    requires
        blueprint.target_words * blueprint::SECTION_WORD_FLOOR_PERCENT <= usize::MAX,
    ensures
        r@ == section_seeded(blueprint@, text::views(parts@)),
{
    let heading = blueprint.heading;
    let assembled = sections::assemble_section_from_parts(heading, parts);
    let seed = sections::normalize_section_markdown(assembled.as_str(), heading);
    match sections::try_convert_outline_section_to_prose(seed.as_str(), heading) {
        Some(draft) => match sections::try_convert_outline_section_to_prose(
            draft.as_str(),
            heading,
        ) {
            Some(content) => judge_section(blueprint, content, 0),
            None => SectionStep::Stuck,
        },
        None => SectionStep::Stuck,
    }
}

impl SectionWork {
    /// The work on a section before anything was written.
    pub fn start(blueprint: &SectionBlueprint) -> (r: SectionStep)
        requires
            blueprint.target_words * blueprint::SECTION_WORD_FLOOR_PERCENT <= usize::MAX,
        ensures
            r@ == section_start(blueprint@),
    {
        let parts: Vec<String> = Vec::new();
        assert(text::views(parts@) =~= seq![]);
        assert(blueprint@.parts.len() == blueprint.parts@.len());
        if blueprint.parts.len() == 0 {
            return seed_section(blueprint, &parts);
        }
        SectionStep::Continue { work: SectionWork { parts, part: PartWork::new(), revision: None } }
    }

    /// What a model is asked next.
    pub fn request(&self, context: &SectionGenerationContext, blueprint: &SectionBlueprint) -> (r:
        ModelRequest)
        requires
            blueprint::is_sized(blueprint@),
            section_goes_on(self@, blueprint@),
        ensures
            r@ == section_request(self@, context@, blueprint@),
    {
        match &self.revision {
            Some(r) => ask(
                prompts::build_section_revision_prompt(
                    context,
                    blueprint,
                    r.draft.as_str(),
                    r.failure.as_str(),
                ),
                20,
                blueprint::section_token_budget(blueprint),
            ),
            None => {
                assert(blueprint@.parts.len() == blueprint.parts@.len());
                assert(text::views(self.parts@).len() == self.parts@.len());
                let part = &blueprint.parts[self.parts.len()];
                assert(blueprint@.parts[self.parts@.len() as int] == part@);
                self.part.request(context, blueprint, part, &self.parts)
            },
        }
    }

    /// What follows a reply.
    pub fn reply(self, blueprint: &SectionBlueprint, raw: &str) -> (r: SectionStep)
        requires
            blueprint::is_sized(blueprint@),
            section_goes_on(self@, blueprint@),
        ensures
            r@ == section_step(self@, blueprint@, raw@),
    {
        match self.revision {
            Some(r) => {
                let draft = sections::normalize_section_markdown(raw, blueprint.heading);
                match sections::try_convert_outline_section_to_prose(
                    draft.as_str(),
                    blueprint.heading,
                ) {
                    Some(content) => judge_section(blueprint, content, r.attempt),
                    None => SectionStep::Stuck,
                }
            },
            None => {
                assert(blueprint@.parts.len() == blueprint.parts@.len());
                assert(text::views(self.parts@).len() == self.parts@.len());
                let part = &blueprint.parts[self.parts.len()];
                assert(blueprint@.parts[self.parts@.len() as int] == part@);
                match self.part.reply(blueprint, part, raw) {
                    PartStep::Continue { work } => SectionStep::Continue {
                        work: SectionWork { parts: self.parts, part: work, revision: None },
                    },
                    PartStep::Done { text } => {
                        let mut parts = self.parts;
                        parts.push(text);
                        assert(text::views(parts@).len() == parts@.len());
                        if parts.len() >= blueprint.parts.len() {
                            return seed_section(blueprint, &parts);
                        }
                        SectionStep::Continue {
                            work: SectionWork { parts, part: PartWork::new(), revision: None },
                        }
                    },
                    PartStep::Failed { error } => SectionStep::Failed { error },
                    PartStep::Stuck => SectionStep::Stuck,
                }
            },
        }
    }
}

} // verus!
