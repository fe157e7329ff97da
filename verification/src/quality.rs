//! The quality gates: what a section, a part of a section and a whole report must hold to be
//! accepted, and what is said of those that do not.

use crate::blueprint;
use crate::blueprint::{
    BlueprintView, DocumentSpec, DocumentView, PartView, SectionBlueprint, SectionPartBlueprint,
};
use crate::chars;
use crate::models;
use crate::models::{QualityView, ReferenceStyle, ResearchQualityReport, ResearchSection};
use crate::models::SectionView;
use crate::numbers;
use crate::outline;
use crate::pieces;
use crate::sections;
use crate::text;
use crate::trim;
use vstd::prelude::*;

verus! {

broadcast use text::lemma_views_push;

/// The number of words on a page.
pub const WORDS_PER_PDF_PAGE_ESTIMATE: usize = 500;

// Counting

/// The number of words in a text.
pub open spec fn word_count(t: Seq<char>) -> int {
    pieces::words(t).len() as int
}

/// The number of words in a text.
pub fn count_words(t: &str) -> (r: usize)
    ensures
        r == word_count(t@),
{
    let ws = pieces::words_of(t);
    assert(text::views(ws@).len() == ws@.len());
    ws.len()
}

/// The number of pages that a number of words fills, at least one.
pub open spec fn pages(words: int) -> int {
    if words <= 1 {
        1
    } else {
        (words + 499) / 500
    }
}

/// The number of pages that a number of words fills, rounded up.
pub fn estimate_page_count(word_count: usize) -> (r: usize)
    ensures
        r == pages(word_count as int),
{
    if word_count == 0 {
        1
    } else {
        (word_count - 1) / WORDS_PER_PDF_PAGE_ESTIMATE + 1
    }
}

/// The pages hold all of the words, one page less would not, and there is always one.
pub proof fn law_pages(words: int)
    requires
        words >= 0,
    ensures
        pages(words) >= 1,
        pages(words) * 500 >= words,
        pages(words) > 1 ==> (pages(words) - 1) * 500 < words,
{
}

pub open spec fn has_letter(t: Seq<char>) -> bool {
    exists|i: int| 0 <= i < t.len() && chars::alphabetic(#[trigger] t[i])
}

pub open spec fn has_digit(t: Seq<char>) -> bool {
    exists|i: int| 0 <= i < t.len() && chars::is_digit(#[trigger] t[i])
}

/// What stands in parentheses is a citation if it holds a letter, and a digit or a comma.
pub open spec fn is_citation(t: Seq<char>) -> bool {
    has_letter(t) && (has_digit(t) || t.contains(','))
}

/// The citations in a text; `open` is what has been read since the last opening parenthesis.
pub open spec fn citations_after(t: Seq<char>, open: Option<Seq<char>>) -> int
    decreases t.len(),
{
    if t.len() == 0 {
        0
    } else {
        let rest = t.skip(1);
        match open {
            _ if t[0] == '(' => citations_after(rest, Some(seq![])),
            Some(read) => if t[0] == ')' {
                (if is_citation(read) {
                    1int
                } else {
                    0int
                }) + citations_after(rest, None)
            } else {
                citations_after(rest, Some(read.push(t[0])))
            },
            None => citations_after(rest, None),
        }
    }
}

/// The number of citations in a text.
pub open spec fn citations(t: Seq<char>) -> int {
    citations_after(t, None)
}

/// Whether a text in parentheses is a citation.
fn reads_as_citation(x: &Vec<char>) -> (r: bool)
    ensures
        r == is_citation(x@),
{
    let mut letters = false;
    let mut digits = false;
    let mut comma = false;
    let mut i: usize = 0;
    while i < x.len()
        invariant
            i <= x@.len(),
            letters == exists|j: int| 0 <= j < i && chars::alphabetic(#[trigger] x@[j]),
            digits == exists|j: int| 0 <= j < i && chars::is_digit(#[trigger] x@[j]),
            comma == exists|j: int| 0 <= j < i && #[trigger] x@[j] == ',',
        decreases x@.len() - i,
    {
        let c = x[i];
        if chars::is_alphabetic(c) {
            letters = true;
        }
        if chars::digit(c) {
            digits = true;
        }
        if c == ',' {
            comma = true;
        }
        i += 1;
    }
    letters && (digits || comma)
}

/// The number of citations in a text.
pub fn count_citation_mentions(t: &str) -> (r: usize)
    ensures
        r == citations(t@),
{
    let x = text::chars_of(t);
    let mut count: usize = 0;
    let mut inside = false;
    let mut read: Vec<char> = Vec::new();
    let mut i: usize = 0;
    assert(x@.skip(0) == x@);
    while i < x.len()
        invariant
            i <= x@.len(),
            count <= i,
            citations(x@) == count + citations_after(
                x@.skip(i as int),
                if inside {
                    Some(read@)
                } else {
                    None
                },
            ),
        decreases x@.len() - i,
    {
        assert(x@.skip(i as int).skip(1) == x@.skip(i + 1));
        let c = x[i];
        if c == '(' {
            inside = true;
            read = Vec::new();
            assert(read@ =~= seq![]);
        } else if inside {
            if c == ')' {
                if reads_as_citation(&read) {
                    count += 1;
                }
                inside = false;
            } else {
                read.push(c);
            }
        }
        i += 1;
    }
    count
}

// Reasons

/// The list with one more reason, where it applies.
pub open spec fn with_reason(list: Seq<Seq<char>>, applies: bool, reason: Seq<char>) -> Seq<
    Seq<char>,
> {
    if applies {
        list.push(reason)
    } else {
        list
    }
}

pub open spec fn too_short(count: int, minimum: int) -> Seq<char> {
    "too short ("@ + numbers::decimal(count as nat) + " words, need at least "@ + numbers::decimal(
        minimum as nat,
    ) + ")"@
}

pub open spec fn too_few_citations(count: int, minimum: int) -> Seq<char> {
    "too few citations ("@ + numbers::decimal(count as nat) + " found, need at least "@
        + numbers::decimal(minimum as nat) + ")"@
}

pub open spec fn holds_bullets(count: int) -> Seq<char> {
    "contains "@ + numbers::decimal(count as nat) + " bullet/outline lines"@
}

pub open spec fn holds_markers(hits: Seq<Seq<char>>) -> Seq<char> {
    "contains meta/outlining markers: "@ + pieces::join(hits, ", "@)
}

fn say_too_short(count: usize, minimum: usize) -> (r: String)
    ensures
        r@ == too_short(count as int, minimum as int),
{
    let mut r = text::copy("too short (");
    numbers::push_decimal(&mut r, count as u64);
    r.append(" words, need at least ");
    numbers::push_decimal(&mut r, minimum as u64);
    r.append(")");
    r
}

fn say_too_few_citations(count: usize, minimum: usize) -> (r: String)
    ensures
        r@ == too_few_citations(count as int, minimum as int),
{
    let mut r = text::copy("too few citations (");
    numbers::push_decimal(&mut r, count as u64);
    r.append(" found, need at least ");
    numbers::push_decimal(&mut r, minimum as u64);
    r.append(")");
    r
}

fn say_holds_bullets(count: usize) -> (r: String)
    ensures
        r@ == holds_bullets(count as int),
{
    let mut r = text::copy("contains ");
    numbers::push_decimal(&mut r, count as u64);
    r.append(" bullet/outline lines");
    r
}

fn say_holds_markers(hits: &Vec<String>) -> (r: String)
    ensures
        r@ == holds_markers(text::views(hits@)),
{
    let mut r = text::copy("contains meta/outlining markers: ");
    let list = pieces::joined(hits, ", ");
    r.append(list.as_str());
    r
}

/// The reasons in one line.
pub open spec fn reasons_text(reasons: Seq<Seq<char>>) -> Seq<char> {
    pieces::join(reasons, "; "@)
}

/// Every reason says something.
spec fn are_told(reasons: Seq<Seq<char>>) -> bool {
    forall|i: int| 0 <= i < reasons.len() ==> (#[trigger] reasons[i]).len() > 0
}

/// A line of reasons is empty exactly where there is none.
proof fn lemma_reasons_text(reasons: Seq<Seq<char>>)
    requires
        are_told(reasons),
    ensures
        reasons_text(reasons).len() == 0 <==> reasons.len() == 0,
    decreases reasons.len(),
{
    if reasons.len() > 1 {
        assert(reasons.last() == reasons[reasons.len() - 1]);
    } else if reasons.len() == 1 {
        assert(reasons[0].len() > 0);
    }
}

proof fn lemma_reasons_are_told()
    ensures
        "missing section heading"@.len() > 0,
        "too short ("@.len() > 0,
        "too few citations ("@.len() > 0,
        "contains "@.len() > 0,
        "contains meta/outlining markers: "@.len() > 0,
        "missing headings: "@.len() > 0,
        "missing bibliography/references section"@.len() > 0,
        "contains bullet or outline formatting"@.len() > 0,
        "contains prose violations: "@.len() > 0,
        "word count too low ("@.len() > 0,
        "citation count too low ("@.len() > 0,
{
    reveal_strlit("missing section heading");
    reveal_strlit("too short (");
    reveal_strlit("too few citations (");
    reveal_strlit("contains ");
    reveal_strlit("contains meta/outlining markers: ");
    reveal_strlit("missing headings: ");
    reveal_strlit("missing bibliography/references section");
    reveal_strlit("contains bullet or outline formatting");
    reveal_strlit("contains prose violations: ");
    reveal_strlit("word count too low (");
    reveal_strlit("citation count too low (");
}

// Sections

/// What was found of a section.
#[derive(Debug)]
pub struct SectionQualityAssessment {
    pub heading_present: bool,
    pub word_count: usize,
    pub minimum_word_count: usize,
    pub citation_mentions: usize,
    pub minimum_citations: usize,
    pub bullet_lines: usize,
    pub banned_phrase_hits: Vec<String>,
}

pub struct AssessmentView {
    pub heading_present: bool,
    pub word_count: int,
    pub minimum_word_count: int,
    pub citation_mentions: int,
    pub minimum_citations: int,
    pub bullet_lines: int,
    pub banned_phrase_hits: Seq<Seq<char>>,
}

impl View for SectionQualityAssessment {
    type V = AssessmentView;

    open spec fn view(&self) -> AssessmentView {
        AssessmentView {
            heading_present: self.heading_present,
            word_count: self.word_count as int,
            minimum_word_count: self.minimum_word_count as int,
            citation_mentions: self.citation_mentions as int,
            minimum_citations: self.minimum_citations as int,
            bullet_lines: self.bullet_lines as int,
            banned_phrase_hits: text::views(self.banned_phrase_hits@),
        }
    }
}

impl AssessmentView {
    pub open spec fn is_prose(self) -> bool {
        self.bullet_lines == 0 && self.banned_phrase_hits.len() == 0
    }

    pub open spec fn is_accepted(self) -> bool {
        &&& self.heading_present
        &&& self.word_count >= self.minimum_word_count
        &&& self.citation_mentions >= self.minimum_citations
        &&& self.is_prose()
    }

    pub open spec fn reasons(self) -> Seq<Seq<char>> {
        let a = with_reason(seq![], !self.heading_present, "missing section heading"@);
        let b = with_reason(
            a,
            self.word_count < self.minimum_word_count,
            too_short(self.word_count, self.minimum_word_count),
        );
        let c = with_reason(
            b,
            self.citation_mentions < self.minimum_citations,
            too_few_citations(self.citation_mentions, self.minimum_citations),
        );
        let d = with_reason(c, self.bullet_lines > 0, holds_bullets(self.bullet_lines));
        with_reason(
            d,
            self.banned_phrase_hits.len() > 0,
            holds_markers(self.banned_phrase_hits),
        )
    }
}

impl SectionQualityAssessment {
    /// Whether there are neither lists nor drafting notes.
    pub fn prose_only(&self) -> (r: bool)
        ensures
            r == self@.is_prose(),
    {
        assert(text::views(self.banned_phrase_hits@).len() == self.banned_phrase_hits@.len());
        self.bullet_lines == 0 && self.banned_phrase_hits.len() == 0
    }

    /// Whether the section is accepted.
    pub fn passes(&self) -> (r: bool)
        ensures
            r == self@.is_accepted(),
    {
        self.heading_present && self.word_count >= self.minimum_word_count
            && self.citation_mentions >= self.minimum_citations && self.prose_only()
    }

    /// Why the section is refused; empty where it is not.
    pub fn failure_summary(&self) -> (r: String)
        ensures
            r@ == reasons_text(self@.reasons()),
    {
        let mut reasons: Vec<String> = Vec::new();
        assert(text::views(reasons@) =~= seq![]);
        if !self.heading_present {
            reasons.push(text::copy("missing section heading"));
        }
        if self.word_count < self.minimum_word_count {
            reasons.push(say_too_short(self.word_count, self.minimum_word_count));
        }
        if self.citation_mentions < self.minimum_citations {
            reasons.push(say_too_few_citations(self.citation_mentions, self.minimum_citations));
        }
        if self.bullet_lines > 0 {
            reasons.push(say_holds_bullets(self.bullet_lines));
        }
        assert(text::views(self.banned_phrase_hits@).len() == self.banned_phrase_hits@.len());
        if self.banned_phrase_hits.len() > 0 {
            reasons.push(say_holds_markers(&self.banned_phrase_hits));
        }
        pieces::joined(&reasons, "; ")
    }
}

/// A section is accepted exactly where there is no reason to refuse it.
pub proof fn law_accepted_without_reasons(a: AssessmentView)
    requires
        a.bullet_lines >= 0,
    ensures
        a.is_accepted() <==> reasons_text(a.reasons()).len() == 0,
{
    lemma_reasons_are_told();
    lemma_reasons_text(a.reasons());
}

/// What there is to find of a section.
pub open spec fn assessment(section: Seq<char>, blueprint: BlueprintView) -> AssessmentView {
    AssessmentView {
        heading_present: text::contains(section, sections::heading_line(blueprint.heading)),
        word_count: word_count(section),
        minimum_word_count: blueprint::section_floor(blueprint.target_words),
        citation_mentions: citations(section),
        minimum_citations: blueprint.minimum_citations,
        bullet_lines: outline::bullets(section),
        banned_phrase_hits: outline::hits(section),
    }
}

/// Assesses a section.
pub fn evaluate_section_quality(section: &str, blueprint: &SectionBlueprint) -> (r:
    SectionQualityAssessment)
    requires
        blueprint.target_words * blueprint::SECTION_WORD_FLOOR_PERCENT <= usize::MAX,
    ensures
        r@ == assessment(section@, blueprint@),
{
    let heading = sections::heading_of(blueprint.heading);
    SectionQualityAssessment {
        heading_present: text::has(section, heading.as_str()),
        word_count: count_words(section),
        minimum_word_count: blueprint::minimum_words_for_section(blueprint),
        citation_mentions: count_citation_mentions(section),
        minimum_citations: blueprint.minimum_citations,
        bullet_lines: outline::count_bullet_lines(section),
        banned_phrase_hits: outline::collect_banned_phrase_hits(section),
    }
}

// Parts of sections

/// What was found of a part of a section.
#[derive(Debug)]
pub struct SectionPartQualityAssessment {
    pub word_count: usize,
    pub minimum_word_count: usize,
    pub citation_mentions: usize,
    pub minimum_citations: usize,
    pub bullet_lines: usize,
    pub banned_phrase_hits: Vec<String>,
}

pub struct PartAssessmentView {
    pub word_count: int,
    pub minimum_word_count: int,
    pub citation_mentions: int,
    pub minimum_citations: int,
    pub bullet_lines: int,
    pub banned_phrase_hits: Seq<Seq<char>>,
}

impl View for SectionPartQualityAssessment {
    type V = PartAssessmentView;

    open spec fn view(&self) -> PartAssessmentView {
        PartAssessmentView {
            word_count: self.word_count as int,
            minimum_word_count: self.minimum_word_count as int,
            citation_mentions: self.citation_mentions as int,
            minimum_citations: self.minimum_citations as int,
            bullet_lines: self.bullet_lines as int,
            banned_phrase_hits: text::views(self.banned_phrase_hits@),
        }
    }
}

impl PartAssessmentView {
    pub open spec fn is_prose(self) -> bool {
        self.bullet_lines == 0 && self.banned_phrase_hits.len() == 0
    }

    pub open spec fn is_accepted(self) -> bool {
        &&& self.word_count >= self.minimum_word_count
        &&& self.citation_mentions >= self.minimum_citations
        &&& self.is_prose()
    }

    pub open spec fn reasons(self) -> Seq<Seq<char>> {
        let a = with_reason(
            seq![],
            self.word_count < self.minimum_word_count,
            too_short(self.word_count, self.minimum_word_count),
        );
        let b = with_reason(
            a,
            self.citation_mentions < self.minimum_citations,
            too_few_citations(self.citation_mentions, self.minimum_citations),
        );
        let c = with_reason(b, self.bullet_lines > 0, holds_bullets(self.bullet_lines));
        with_reason(
            c,
            self.banned_phrase_hits.len() > 0,
            holds_markers(self.banned_phrase_hits),
        )
    }
}

impl SectionPartQualityAssessment {
    /// Whether there are neither lists nor drafting notes.
    pub fn prose_only(&self) -> (r: bool)
        ensures
            r == self@.is_prose(),
    {
        assert(text::views(self.banned_phrase_hits@).len() == self.banned_phrase_hits@.len());
        self.bullet_lines == 0 && self.banned_phrase_hits.len() == 0
    }

    /// Whether the part is accepted.
    pub fn passes(&self) -> (r: bool)
        ensures
            r == self@.is_accepted(),
    {
        self.word_count >= self.minimum_word_count && self.citation_mentions
            >= self.minimum_citations && self.prose_only()
    }

    /// Why the part is refused; empty where it is not.
    pub fn failure_summary(&self) -> (r: String)
        ensures
            r@ == reasons_text(self@.reasons()),
    {
        let mut reasons: Vec<String> = Vec::new();
        assert(text::views(reasons@) =~= seq![]);
        if self.word_count < self.minimum_word_count {
            reasons.push(say_too_short(self.word_count, self.minimum_word_count));
        }
        if self.citation_mentions < self.minimum_citations {
            reasons.push(say_too_few_citations(self.citation_mentions, self.minimum_citations));
        }
        if self.bullet_lines > 0 {
            reasons.push(say_holds_bullets(self.bullet_lines));
        }
        assert(text::views(self.banned_phrase_hits@).len() == self.banned_phrase_hits@.len());
        if self.banned_phrase_hits.len() > 0 {
            reasons.push(say_holds_markers(&self.banned_phrase_hits));
        }
        pieces::joined(&reasons, "; ")
    }
}

/// A part is accepted exactly where there is no reason to refuse it.
pub proof fn law_part_accepted_without_reasons(a: PartAssessmentView)
    requires
        a.bullet_lines >= 0,
    ensures
        a.is_accepted() <==> reasons_text(a.reasons()).len() == 0,
{
    lemma_reasons_are_told();
    lemma_reasons_text(a.reasons());
}

/// What there is to find of a part of a section.
pub open spec fn part_assessment(fragment: Seq<char>, blueprint: PartView) -> PartAssessmentView {
    PartAssessmentView {
        word_count: word_count(fragment),
        minimum_word_count: blueprint::part_floor(blueprint.target_words),
        citation_mentions: citations(fragment),
        minimum_citations: blueprint.minimum_citations,
        bullet_lines: outline::bullets(fragment),
        banned_phrase_hits: outline::hits(fragment),
    }
}

/// Assesses a part of a section.
pub fn evaluate_section_part_quality(fragment: &str, blueprint: &SectionPartBlueprint) -> (r:
    SectionPartQualityAssessment)
    requires
        blueprint.target_words * blueprint::SECTION_PART_WORD_FLOOR_PERCENT <= usize::MAX,
    ensures
        r@ == part_assessment(fragment@, blueprint@),
{
    SectionPartQualityAssessment {
        word_count: count_words(fragment),
        minimum_word_count: blueprint::minimum_words_for_section_part(blueprint),
        citation_mentions: count_citation_mentions(fragment),
        minimum_citations: blueprint.minimum_citations,
        bullet_lines: outline::count_bullet_lines(fragment),
        banned_phrase_hits: outline::collect_banned_phrase_hits(fragment),
    }
}

// Reports

/// The part of a report that is read for its quality: all before the bibliography.
pub open spec fn narrative(markdown: Seq<char>, style: ReferenceStyle) -> Seq<char> {
    match text::split_once(markdown, sections::heading_line(style.heading())) {
        Some((body, _)) => trim::trim_end(body),
        None => markdown,
    }
}

/// The part of a report that is read for its quality.
pub fn report_body_for_quality(markdown: &str, reference_style: &ReferenceStyle) -> (r: String)
    ensures
        r@ == narrative(markdown@, *reference_style),
{
    let heading = sections::heading_of(reference_style.bibliography_heading());
    match text::cut_once(markdown, heading.as_str()) {
        Some((body, _)) => trim::trimmed_end(body.as_str()),
        None => text::copy(markdown),
    }
}

/// The headings of a report that its text lacks.
pub open spec fn missing_headings(list: Seq<BlueprintView>, markdown: Seq<char>) -> Seq<Seq<char>>
    decreases list.len(),
{
    if list.len() == 0 {
        seq![]
    } else if text::contains(markdown, sections::heading_line(list.last().heading)) {
        missing_headings(list.drop_last(), markdown)
    } else {
        missing_headings(list.drop_last(), markdown).push(list.last().heading)
    }
}

/// What there is to find of a report.
pub open spec fn report_quality(
    markdown: Seq<char>,
    spec: DocumentView,
    citation_target: int,
    style: ReferenceStyle,
) -> QualityView {
    let body = narrative(markdown, style);
    let missing = missing_headings(spec.sections, markdown);
    let floor = blueprint::section_floor(spec.minimum_words);
    QualityView {
        required_headings_present: missing.len() == 0,
        references_present: text::contains(markdown, sections::heading_line(style.heading())),
        bullet_free: outline::bullets(body) == 0,
        prose_only: outline::is_prose(body),
        minimum_word_count_met: word_count(body) >= floor,
        citation_target_met: citations(body) >= citation_target,
        actual_word_count: word_count(body),
        minimum_word_count: floor,
        citation_mentions: citations(body),
        citation_target,
        missing_headings: missing,
        banned_phrase_hits: outline::hits(body),
    }
}

fn find_missing_headings(list: &Vec<SectionBlueprint>, markdown: &str) -> (r: Vec<String>)
    ensures
        text::views(r@) == missing_headings(blueprint::blueprint_views(list@), markdown@),
{
    let ghost all = blueprint::blueprint_views(list@);
    let mut missing: Vec<String> = Vec::new();
    let mut i: usize = 0;
    assert(text::views(missing@) =~= missing_headings(all.take(0), markdown@));
    while i < list.len()
        invariant
            i <= list@.len(),
            all == blueprint::blueprint_views(list@),
            text::views(missing@) == missing_headings(all.take(i as int), markdown@),
        decreases list@.len() - i,
    {
        assert(all.take(i + 1).drop_last() == all.take(i as int));
        assert(all.take(i + 1).last() == list@[i as int]@);
        let heading = sections::heading_of(list[i].heading);
        if !text::has(markdown, heading.as_str()) {
            missing.push(text::copy(list[i].heading));
        }
        i += 1;
    }
    assert(all.take(i as int) == all);
    missing
}

/// Assesses a report: its headings and its bibliography in all of the text, the rest in what stands
/// before the bibliography.
pub fn analyze_report_quality(
    markdown: &str,
    spec: &DocumentSpec,
    citation_target: usize,
    reference_style: &ReferenceStyle,
) -> (r: ResearchQualityReport)
    requires
        spec.minimum_words * blueprint::SECTION_WORD_FLOOR_PERCENT <= usize::MAX,
    ensures
        r@ == report_quality(markdown@, spec@, citation_target as int, *reference_style),
{
    let body = report_body_for_quality(markdown, reference_style);
    let missing_headings = find_missing_headings(&spec.section_blueprints, markdown);
    let banned_phrase_hits = outline::collect_banned_phrase_hits(body.as_str());
    let bullet_free = outline::count_bullet_lines(body.as_str()) == 0;
    let prose_only = bullet_free && banned_phrase_hits.len() == 0;
    let citation_mentions = count_citation_mentions(body.as_str());
    let actual_word_count = count_words(body.as_str());
    let minimum_word_count = (spec.minimum_words * blueprint::SECTION_WORD_FLOOR_PERCENT) / 100;
    let bibliography = sections::heading_of(reference_style.bibliography_heading());
    assert(text::views(missing_headings@).len() == missing_headings@.len());
    assert(text::views(banned_phrase_hits@).len() == banned_phrase_hits@.len());
    ResearchQualityReport {
        required_headings_present: missing_headings.len() == 0,
        references_present: text::has(markdown, bibliography.as_str()),
        bullet_free,
        prose_only,
        minimum_word_count_met: actual_word_count >= minimum_word_count,
        citation_target_met: citation_mentions >= citation_target,
        actual_word_count,
        minimum_word_count,
        citation_mentions,
        citation_target,
        missing_headings,
        banned_phrase_hits,
    }
}

/// Whether a report is accepted.
pub open spec fn report_accepted(q: QualityView) -> bool {
    &&& q.required_headings_present
    &&& q.references_present
    &&& q.prose_only
    &&& q.minimum_word_count_met
    &&& q.citation_target_met
}

/// Whether a report is accepted.
pub fn report_quality_passes(quality: &ResearchQualityReport) -> (r: bool)
    ensures
        r == report_accepted(quality@),
{
    quality.required_headings_present && quality.references_present && quality.prose_only
        && quality.minimum_word_count_met && quality.citation_target_met
}

pub open spec fn word_count_too_low(q: QualityView) -> Seq<char> {
    "word count too low ("@ + numbers::decimal(q.actual_word_count as nat) + " of "@
        + numbers::decimal(q.minimum_word_count as nat) + ")"@
}

pub open spec fn citation_count_too_low(q: QualityView) -> Seq<char> {
    "citation count too low ("@ + numbers::decimal(q.citation_mentions as nat) + " of target "@
        + numbers::decimal(q.citation_target as nat) + ")"@
}

pub open spec fn report_reasons(q: QualityView) -> Seq<Seq<char>> {
    let a = with_reason(
        seq![],
        !q.required_headings_present,
        "missing headings: "@ + pieces::join(q.missing_headings, ", "@),
    );
    let b = with_reason(a, !q.references_present, "missing bibliography/references section"@);
    let c = with_reason(b, !q.bullet_free, "contains bullet or outline formatting"@);
    let d = with_reason(
        c,
        !q.prose_only && q.banned_phrase_hits.len() > 0,
        "contains prose violations: "@ + pieces::join(q.banned_phrase_hits, ", "@),
    );
    let e = with_reason(d, !q.minimum_word_count_met, word_count_too_low(q));
    with_reason(e, !q.citation_target_met, citation_count_too_low(q))
}

/// Why a report is refused.
pub fn report_failure_summary(quality: &ResearchQualityReport) -> (r: String)
    ensures
        r@ == reasons_text(report_reasons(quality@)),
{
    let mut reasons: Vec<String> = Vec::new();
    assert(text::views(reasons@) =~= seq![]);
    if !quality.required_headings_present {
        let mut s = text::copy("missing headings: ");
        let list = pieces::joined(&quality.missing_headings, ", ");
        s.append(list.as_str());
        reasons.push(s);
    }
    if !quality.references_present {
        reasons.push(text::copy("missing bibliography/references section"));
    }
    if !quality.bullet_free {
        reasons.push(text::copy("contains bullet or outline formatting"));
    }
    assert(text::views(quality.banned_phrase_hits@).len() == quality.banned_phrase_hits@.len());
    if !quality.prose_only && quality.banned_phrase_hits.len() > 0 {
        let mut s = text::copy("contains prose violations: ");
        let list = pieces::joined(&quality.banned_phrase_hits, ", ");
        s.append(list.as_str());
        reasons.push(s);
    }
    if !quality.minimum_word_count_met {
        let mut s = text::copy("word count too low (");
        numbers::push_decimal(&mut s, quality.actual_word_count as u64);
        s.append(" of ");
        numbers::push_decimal(&mut s, quality.minimum_word_count as u64);
        s.append(")");
        reasons.push(s);
    }
    if !quality.citation_target_met {
        let mut s = text::copy("citation count too low (");
        numbers::push_decimal(&mut s, quality.citation_mentions as u64);
        s.append(" of target ");
        numbers::push_decimal(&mut s, quality.citation_target as u64);
        s.append(")");
        reasons.push(s);
    }
    pieces::joined(&reasons, "; ")
}

/// An assessed report is accepted exactly where there is no reason to refuse it.
pub proof fn law_report_accepted_without_reasons(
    markdown: Seq<char>,
    spec: DocumentView,
    citation_target: int,
    style: ReferenceStyle,
)
    ensures
        ({
            let q = report_quality(markdown, spec, citation_target, style);
            report_accepted(q) <==> reasons_text(report_reasons(q)).len() == 0
        }),
{
    let q = report_quality(markdown, spec, citation_target, style);
    lemma_reasons_are_told();
    lemma_reasons_text(report_reasons(q));
}

/// Text behind the heading of the bibliography counts for nothing but the headings.
pub proof fn law_bibliography_is_not_read(
    body: Seq<char>,
    rest: Seq<char>,
    other: Seq<char>,
    style: ReferenceStyle,
)
    requires
        text::find(
            body + sections::heading_line(style.heading()) + rest,
            sections::heading_line(style.heading()),
        ) == Some(body.len() as int),
        text::find(
            body + sections::heading_line(style.heading()) + other,
            sections::heading_line(style.heading()),
        ) == Some(body.len() as int),
    ensures
        narrative(body + sections::heading_line(style.heading()) + rest, style) == narrative(
            body + sections::heading_line(style.heading()) + other,
            style,
        ),
{
    let h = sections::heading_line(style.heading());
    assert((body + h + rest).take(body.len() as int) =~= body);
    assert((body + h + other).take(body.len() as int) =~= body);
}

// Revision

/// Whether a section has to be revised: it is missing or refused, or the report as a whole is too
/// short or too thinly cited and this section falls short of its own target, or the report holds
/// notes and so does this section.
pub open spec fn needs_revision(
    list: Seq<SectionView>,
    blueprints: Seq<BlueprintView>,
    q: QualityView,
    i: int,
) -> bool {
    ||| i < blueprints.len() && (i >= list.len() || !assessment(
        list[i].content,
        blueprints[i],
    ).is_accepted())
    ||| (!q.minimum_word_count_met || !q.citation_target_met) && i < list.len() && (
    list[i].actual_words < blueprints[i].target_words || citations(list[i].content)
        < blueprints[i].minimum_citations)
    ||| !q.prose_only && i < list.len() && !outline::is_prose(list[i].content)
}

/// The indices below `n` of the sections that have to be revised.
pub open spec fn weak_sections(
    list: Seq<SectionView>,
    blueprints: Seq<BlueprintView>,
    q: QualityView,
    n: int,
) -> Seq<int>
    decreases n,
{
    if n <= 0 {
        seq![]
    } else if needs_revision(list, blueprints, q, n - 1) {
        weak_sections(list, blueprints, q, n - 1).push(n - 1)
    } else {
        weak_sections(list, blueprints, q, n - 1)
    }
}

/// The numbers from 0 to `n`.
pub open spec fn all_below(n: int) -> Seq<int> {
    Seq::new(n as nat, |i: int| i)
}

pub open spec fn larger(a: int, b: int) -> int {
    if a >= b {
        a
    } else {
        b
    }
}

/// The indices of the sections that are revised: of those that have to be, or else of all.
pub open spec fn revision_targets(
    list: Seq<SectionView>,
    blueprints: Seq<BlueprintView>,
    q: QualityView,
) -> Seq<int> {
    let weak = weak_sections(
        list,
        blueprints,
        q,
        larger(list.len() as int, blueprints.len() as int),
    );
    if weak.len() == 0 {
        all_below(list.len() as int)
    } else {
        weak
    }
}

/// The values of a list of indices.
pub open spec fn indices(list: Seq<usize>) -> Seq<int> {
    Seq::new(list.len(), |i: int| list[i] as int)
}

proof fn lemma_indices_push(list: Seq<usize>, i: usize)
    ensures
        indices(list.push(i)) == indices(list).push(i as int),
{
    assert(indices(list.push(i)) =~= indices(list).push(i as int));
}

/// The indices of the sections that are revised, in ascending order.
pub fn identify_sections_for_revision(
    sections: &Vec<ResearchSection>,
    spec: &DocumentSpec,
    quality: &ResearchQualityReport,
) -> (r: Vec<usize>)
    requires
        blueprint::all_sized(spec@.sections),
        quality.minimum_word_count_met && quality.citation_target_met || sections@.len()
            <= spec.section_blueprints@.len(),
    ensures
        indices(r@) == revision_targets(
            models::section_views(sections@),
            spec@.sections,
            quality@,
        ),
{
    let ghost list = models::section_views(sections@);
    let ghost blueprints = spec@.sections;
    let count = sections.len();
    let planned = spec.section_blueprints.len();
    let n = if count >= planned {
        count
    } else {
        planned
    };
    let thin = !quality.minimum_word_count_met || !quality.citation_target_met;
    let mut weak: Vec<usize> = Vec::new();
    let mut i: usize = 0;
    assert(indices(weak@) =~= weak_sections(list, blueprints, quality@, 0));
    while i < n
        invariant
            i <= n,
            count == sections@.len(),
            planned == spec.section_blueprints@.len(),
            n == larger(count as int, planned as int),
            thin == (!quality.minimum_word_count_met || !quality.citation_target_met),
            thin ==> count <= planned,
            list == models::section_views(sections@),
            blueprints == spec@.sections,
            blueprint::all_sized(blueprints),
            indices(weak@) == weak_sections(list, blueprints, quality@, i as int),
        decreases n - i,
    {
        let mut needed = false;
        if i < planned {
            assert(blueprints[i as int] == spec.section_blueprints@[i as int]@);
            assert(blueprint::is_sized(blueprints[i as int]));
            if i < count {
                assert(list[i as int] == sections@[i as int]@);
                let blueprint = &spec.section_blueprints[i];
                let a = evaluate_section_quality(sections[i].content.as_str(), blueprint);
                needed = !a.passes();
                if thin && (sections[i].actual_words < blueprint.target_words
                    || a.citation_mentions < blueprint.minimum_citations) {
                    needed = true;
                }
            } else {
                needed = true;
            }
        }
        if !quality.prose_only && i < count {
            let content = sections[i].content.as_str();
            let hits = outline::collect_banned_phrase_hits(content);
            assert(text::views(hits@).len() == hits@.len());
            if hits.len() > 0 || outline::count_bullet_lines(content) > 0 {
                needed = true;
            }
        }
        assert(needed == needs_revision(list, blueprints, quality@, i as int));
        proof {
            lemma_indices_push(weak@, i);
        }
        if needed {
            weak.push(i);
        }
        i += 1;
    }
    assert(indices(weak@).len() == weak@.len());
    if weak.len() > 0 {
        return weak;
    }
    let mut every: Vec<usize> = Vec::new();
    let mut k: usize = 0;
    while k < count
        invariant
            k <= count,
            indices(every@) == all_below(k as int),
        decreases count - k,
    {
        proof {
            lemma_indices_push(every@, k);
        }
        every.push(k);
        assert(indices(every@) =~= all_below(k + 1));
        k += 1;
    }
    every
}

proof fn lemma_weak_sections(
    list: Seq<SectionView>,
    blueprints: Seq<BlueprintView>,
    q: QualityView,
    n: int,
)
    ensures
        forall|i: int|
            0 <= i < weak_sections(list, blueprints, q, n).len() ==> 0 <= #[trigger] weak_sections(
                list,
                blueprints,
                q,
                n,
            )[i] < n && needs_revision(
                list,
                blueprints,
                q,
                weak_sections(list, blueprints, q, n)[i],
            ),
        forall|i: int, j: int|
            0 <= i < j < weak_sections(list, blueprints, q, n).len() ==> #[trigger] weak_sections(
                list,
                blueprints,
                q,
                n,
            )[i] < #[trigger] weak_sections(list, blueprints, q, n)[j],
        forall|k: int|
            0 <= k < n && #[trigger] needs_revision(list, blueprints, q, k) ==> weak_sections(
                list,
                blueprints,
                q,
                n,
            ).contains(k),
    decreases n,
{
    if n > 0 {
        let front = weak_sections(list, blueprints, q, n - 1);
        let all = weak_sections(list, blueprints, q, n);
        lemma_weak_sections(list, blueprints, q, n - 1);
        assert forall|i: int| 0 <= i < all.len() implies 0 <= #[trigger] all[i] < n
            && needs_revision(list, blueprints, q, all[i]) by {
            if i < front.len() {
                assert(all[i] == front[i]);
            }
        }
        assert forall|i: int, j: int| 0 <= i < j < all.len() implies #[trigger] all[i]
            < #[trigger] all[j] by {
            assert(all[i] == front[i]);
            if j < front.len() {
                assert(all[j] == front[j]);
            }
        }
        assert forall|k: int|
            0 <= k < n && #[trigger] needs_revision(list, blueprints, q, k) implies all.contains(
            k,
        ) by {
            if k == n - 1 {
                assert(all[all.len() - 1] == k);
            } else {
                assert(front.contains(k));
                let i = choose|i: int| 0 <= i < front.len() && front[i] == k;
                assert(all[i] == k);
            }
        }
    }
}

/// The sections that are revised are named in ascending order, each once; every section that has
/// to be revised is among them; and there is always one where there are sections.
pub proof fn law_revision_targets(
    list: Seq<SectionView>,
    blueprints: Seq<BlueprintView>,
    q: QualityView,
)
    ensures
        forall|i: int, j: int|
            0 <= i < j < revision_targets(list, blueprints, q).len() ==> #[trigger] revision_targets(
                list,
                blueprints,
                q,
            )[i] < #[trigger] revision_targets(list, blueprints, q)[j],
        forall|i: int|
            0 <= i < revision_targets(list, blueprints, q).len() ==> 0
                <= #[trigger] revision_targets(list, blueprints, q)[i] < larger(
                list.len() as int,
                blueprints.len() as int,
            ),
        forall|k: int|
            0 <= k < larger(list.len() as int, blueprints.len() as int)
                && #[trigger] needs_revision(list, blueprints, q, k) ==> revision_targets(
                list,
                blueprints,
                q,
            ).contains(k),
        list.len() > 0 ==> revision_targets(list, blueprints, q).len() > 0,
{
    let n = larger(list.len() as int, blueprints.len() as int);
    lemma_weak_sections(list, blueprints, q, n);
    let weak = weak_sections(list, blueprints, q, n);
    assert forall|k: int|
        0 <= k < n && #[trigger] needs_revision(
            list,
            blueprints,
            q,
            k,
        ) implies revision_targets(list, blueprints, q).contains(k) by {
        assert(weak.contains(k));
    }
}

pub open spec fn revision_reasons(
    section: SectionView,
    blueprint: BlueprintView,
    q: QualityView,
) -> Seq<Seq<char>> {
    let own = reasons_text(assessment(section.content, blueprint).reasons());
    let a = with_reason(seq![], own.len() > 0, own);
    let b = with_reason(
        a,
        !q.minimum_word_count_met,
        "the overall paper is still too short and this section must be expanded substantially"@,
    );
    let c = with_reason(
        b,
        !q.citation_target_met,
        "the overall paper needs more in-text citations, so this section should cite evidence more often"@,
    );
    with_reason(
        c,
        !q.prose_only,
        "the overall paper still contains outline/meta language and this section must read as clean final prose"@,
    )
}

/// Why a section is revised.
pub fn summarize_section_revision_need(
    section: &ResearchSection,
    blueprint: &SectionBlueprint,
    quality: &ResearchQualityReport,
) -> (r: String)
    requires
        blueprint.target_words * blueprint::SECTION_WORD_FLOOR_PERCENT <= usize::MAX,
    ensures
        r@ == reasons_text(revision_reasons(section@, blueprint@, quality@)),
{
    let a = evaluate_section_quality(section.content.as_str(), blueprint);
    let own = a.failure_summary();
    let mut reasons: Vec<String> = Vec::new();
    assert(text::views(reasons@) =~= seq![]);
    if !own.as_str().is_empty() {
        reasons.push(own);
    }
    if !quality.minimum_word_count_met {
        reasons.push(
            text::copy(
                "the overall paper is still too short and this section must be expanded substantially",
            ),
        );
    }
    if !quality.citation_target_met {
        reasons.push(
            text::copy(
                "the overall paper needs more in-text citations, so this section should cite evidence more often",
            ),
        );
    }
    if !quality.prose_only {
        reasons.push(
            text::copy(
                "the overall paper still contains outline/meta language and this section must read as clean final prose",
            ),
        );
    }
    pieces::joined(&reasons, "; ")
}

} // verus!
