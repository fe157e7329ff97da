//! Sources and sections as the text that a model or a reader sees.

use crate::blueprint::{DocumentSpec, DocumentView};
use crate::bytes;
use crate::excerpt;
use crate::models;
use crate::models::{
    PlanView, ReferenceStyle, ResearchPlan, ResearchSection, ResearchSource, ResearchTier,
    SectionView, SourceView,
};
use crate::numbers;
use crate::pieces;
use crate::sections;
use crate::sources;
use crate::text;
use crate::trim;
use vstd::prelude::*;

verus! {

broadcast use text::lemma_views_push;

// Citation keys

/// The parts of host names by which publishers are known, and their names; the first that fits
/// counts.
pub open spec fn publishers() -> Seq<(Seq<char>, Seq<char>)> {
    seq![
        ("ncbi.nlm.nih.gov"@, "National Institutes of Health"@),
        ("bbc."@, "BBC News"@),
        ("cnn."@, "CNN"@),
        ("nature.com"@, "Nature"@),
        ("sciencedirect"@, "ScienceDirect"@),
        ("mdpi.com"@, "MDPI"@),
        ("who.int"@, "World Health Organization"@),
        ("nih.gov"@, "National Institutes of Health"@),
        ("cdc.gov"@, "Centers for Disease Control"@),
        ("pubmed"@, "PubMed"@),
        ("academia.edu"@, "Academia"@),
        ("researchgate"@, "ResearchGate"@),
        ("springer"@, "Springer"@),
        ("wiley"@, "Wiley"@),
        ("tandfonline"@, "Taylor & Francis"@),
        ("jstor"@, "JSTOR"@),
        ("sagepub"@, "SAGE Publications"@),
        ("elsevier"@, "Elsevier"@),
        ("harvard"@, "Harvard University"@),
        ("oxford"@, "Oxford University Press"@),
        ("cambridge"@, "Cambridge University Press"@),
        ("worldbank"@, "World Bank"@),
        ("imf.org"@, "International Monetary Fund"@),
        ("un.org"@, "United Nations"@),
        ("youtube"@, "YouTube"@),
    ]
}

/// The name of the first publisher whose mark occurs in a host name, or else the host name.
pub open spec fn named_publisher(list: Seq<(Seq<char>, Seq<char>)>, host: Seq<char>) -> Seq<char>
    decreases list.len(),
{
    if list.len() == 0 {
        host
    } else if text::contains(host, list[0].0) {
        list[0].1
    } else {
        named_publisher(list.skip(1), host)
    }
}

/// The host of an archive that is cited by its own name, whoever runs it.
pub const CITED_HOST: &'static str = "pmc.ncbi.nlm.nih.gov";

/// The author as readers know them: a host name becomes the name of a publisher where it is known,
/// but for the host that is cited by its own name.
pub open spec fn readable_author(author: Seq<char>) -> Seq<char> {
    let a = trim::trim(author);
    if a == CITED_HOST@ {
        a
    } else if text::contains(a, "."@) && !text::contains(a, " "@) {
        named_publisher(publishers(), a)
    } else {
        a
    }
}

/// The key that a source is cited by: its author and its year.
pub open spec fn citation_key(s: SourceView) -> Seq<char> {
    readable_author(s.author_or_channel) + ", "@ + sources::year_label(s.year_hint)
}

/// The contents of a list of pairs of fixed texts.
pub open spec fn pair_views(list: Seq<(&'static str, &'static str)>) -> Seq<
    (Seq<char>, Seq<char>),
> {
    Seq::new(list.len(), |i: int| (list[i].0@, list[i].1@))
}

fn publisher_marks() -> (r: Vec<(&'static str, &'static str)>)
    ensures
        pair_views(r@) == publishers(),
{
    let r = vec![
        ("ncbi.nlm.nih.gov", "National Institutes of Health"),
        ("bbc.", "BBC News"),
        ("cnn.", "CNN"),
        ("nature.com", "Nature"),
        ("sciencedirect", "ScienceDirect"),
        ("mdpi.com", "MDPI"),
        ("who.int", "World Health Organization"),
        ("nih.gov", "National Institutes of Health"),
        ("cdc.gov", "Centers for Disease Control"),
        ("pubmed", "PubMed"),
        ("academia.edu", "Academia"),
        ("researchgate", "ResearchGate"),
        ("springer", "Springer"),
        ("wiley", "Wiley"),
        ("tandfonline", "Taylor & Francis"),
        ("jstor", "JSTOR"),
        ("sagepub", "SAGE Publications"),
        ("elsevier", "Elsevier"),
        ("harvard", "Harvard University"),
        ("oxford", "Oxford University Press"),
        ("cambridge", "Cambridge University Press"),
        ("worldbank", "World Bank"),
        ("imf.org", "International Monetary Fund"),
        ("un.org", "United Nations"),
        ("youtube", "YouTube"),
    ];
    assert(pair_views(r@) =~= publishers());
    r
}

fn publisher_of(host: &str) -> (r: String)
    ensures
        r@ == named_publisher(publishers(), host@),
{
    let list = publisher_marks();
    let ghost all = publishers();
    let mut i: usize = 0;
    assert(all.skip(0) == all);
    while i < list.len()
        invariant
            i <= list@.len(),
            pair_views(list@) == all,
            all == publishers(),
            named_publisher(all, host@) == named_publisher(all.skip(i as int), host@),
        decreases list@.len() - i,
    {
        assert(all.skip(i as int)[0] == (list@[i as int].0@, list@[i as int].1@));
        if text::has(host, list[i].0) {
            return text::copy(list[i].1);
        }
        assert(all.skip(i as int).skip(1) == all.skip(i + 1));
        i += 1;
    }
    text::copy(host)
}

/// The key that a source is cited by, such as `BBC News, 2023` or `pmc.ncbi.nlm.nih.gov, 2021`.
pub fn derive_citation_key(source: &ResearchSource) -> (r: String)
    ensures
        r@ == citation_key(source@),
{
    let a = trim::trimmed(source.author_or_channel.as_str());
    let mut r = if !text::same(a.as_str(), CITED_HOST) && text::has(a.as_str(), ".") && !text::has(
        a.as_str(),
        " ",
    ) {
        publisher_of(a.as_str())
    } else {
        a
    };
    r.append(", ");
    let year = sources::year_text(source.year_hint);
    r.append(year.as_str());
    r
}

// The dossier

/// A text, or what stands in its place where it is empty.
pub open spec fn or_else(t: Seq<char>, other: Seq<char>) -> Seq<char> {
    if t.len() == 0 {
        other
    } else {
        t
    }
}

pub(crate) fn copy_or(t: &str, other: &str) -> (r: String)
    ensures
        r@ == or_else(t@, other@),
{
    if t.is_empty() {
        text::copy(other)
    } else {
        text::copy(t)
    }
}

/// The number of an item in a list, as readers count.
pub open spec fn ordinal(i: int) -> Seq<char> {
    numbers::decimal((i + 1) as nat)
}

pub(crate) fn push_ordinal(s: &mut String, i: usize)
    requires
        i < usize::MAX,
    ensures
        final(s)@ == old(s)@ + ordinal(i as int),
{
    numbers::push_decimal(s, i as u64 + 1);
}

pub open spec fn key_line(i: int, s: SourceView) -> Seq<char> {
    "  ["@ + ordinal(i) + "] ("@ + citation_key(s) + ")\n"@
}

pub open spec fn evidence_entry(i: int, s: SourceView) -> Seq<char> {
    "Source "@ + ordinal(i) + " — cite as ("@ + citation_key(s) + ")\nTitle: "@ + s.title
        + "\nURL: "@ + or_else(s.url, "N/A"@) + "\nYear: "@ + sources::year_label(s.year_hint)
        + "\nEvidence summary: "@ + s.summary + "\n\n"@
}

pub open spec fn key_lines(list: Seq<SourceView>) -> Seq<Seq<char>> {
    Seq::new(list.len(), |i: int| key_line(i, list[i]))
}

pub open spec fn evidence_entries(list: Seq<SourceView>) -> Seq<Seq<char>> {
    Seq::new(list.len(), |i: int| evidence_entry(i, list[i]))
}

/// The sources with their keys and the rules for citing them.
pub open spec fn dossier(list: Seq<SourceView>) -> Seq<char> {
    if list.len() == 0 {
        "No live sources were retrieved. Use conservative, well-established background knowledge and clearly qualify uncertainty."@
    } else {
        "CITATION RULES (non-negotiable):\n\
        - You MUST cite sources using ONLY the citation keys listed below.\n\
        - Do NOT invent author names, years, or citation labels not listed here.\n\
        - If a source does not have a clear author, use the provided key exactly as written.\n\
        - Format every in-text citation exactly as shown in the key, e.g. (National Institutes of Health, 2021).\n\n"@
            + "AVAILABLE CITATION KEYS (use these verbatim in your prose):\n"@ + pieces::join(
            key_lines(list),
            ""@,
        ) + "\n"@ + "SOURCE EVIDENCE DOSSIER:\n"@ + pieces::join(evidence_entries(list), ""@)
    }
}

/// The sources with their keys and the rules for citing them.
pub fn render_source_dossier(list: &Vec<ResearchSource>) -> (r: String)
    ensures
        r@ == dossier(models::source_views(list@)),
{
    if list.len() == 0 {
        return text::copy(
            "No live sources were retrieved. Use conservative, well-established background knowledge and clearly qualify uncertainty.",
        );
    }
    let ghost all = models::source_views(list@);
    let mut keys: Vec<String> = Vec::new();
    let mut entries: Vec<String> = Vec::new();
    let mut i: usize = 0;
    assert(text::views(keys@) =~= key_lines(all).take(0));
    assert(text::views(entries@) =~= evidence_entries(all).take(0));
    while i < list.len()
        invariant
            i <= list@.len(),
            all == models::source_views(list@),
            text::views(keys@) == key_lines(all).take(i as int),
            text::views(entries@) == evidence_entries(all).take(i as int),
        decreases list@.len() - i,
    {
        let source = &list[i];
        assert(all[i as int] == source@);
        let key = derive_citation_key(source);
        let mut line = text::copy("  [");
        push_ordinal(&mut line, i);
        line.append("] (");
        line.append(key.as_str());
        line.append(")\n");
        assert(key_lines(all).take(i + 1) =~= key_lines(all).take(i as int).push(line@));
        keys.push(line);
        let mut entry = text::copy("Source ");
        push_ordinal(&mut entry, i);
        entry.append(" — cite as (");
        entry.append(key.as_str());
        entry.append(")\nTitle: ");
        entry.append(source.title.as_str());
        entry.append("\nURL: ");
        let url = copy_or(source.url.as_str(), "N/A");
        entry.append(url.as_str());
        entry.append("\nYear: ");
        let year = sources::year_text(source.year_hint);
        entry.append(year.as_str());
        entry.append("\nEvidence summary: ");
        entry.append(source.summary.as_str());
        entry.append("\n\n");
        assert(evidence_entries(all).take(i + 1) =~= evidence_entries(all).take(i as int).push(
            entry@,
        ));
        entries.push(entry);
        i += 1;
    }
    assert(key_lines(all).take(i as int) =~= key_lines(all));
    assert(evidence_entries(all).take(i as int) =~= evidence_entries(all));
    let mut r = text::copy(
        "CITATION RULES (non-negotiable):\n\
        - You MUST cite sources using ONLY the citation keys listed below.\n\
        - Do NOT invent author names, years, or citation labels not listed here.\n\
        - If a source does not have a clear author, use the provided key exactly as written.\n\
        - Format every in-text citation exactly as shown in the key, e.g. (National Institutes of Health, 2021).\n\n",
    );
    r.append("AVAILABLE CITATION KEYS (use these verbatim in your prose):\n");
    let key_block = pieces::joined(&keys, "");
    r.append(key_block.as_str());
    r.append("\n");
    r.append("SOURCE EVIDENCE DOSSIER:\n");
    let evidence = pieces::joined(&entries, "");
    r.append(evidence.as_str());
    r
}

// The appendix

pub open spec fn matrix_entry(i: int, s: SourceView) -> Seq<char> {
    "Material "@ + ordinal(i) + ": "@ + s.title + " ("@ + sources::year_label(s.year_hint)
        + ")\nType: "@ + s.source_type + "\nLocator: "@ + or_else(s.url, "No URL captured"@)
        + "\nEvidence note: "@ + s.summary + "\nSuggested citation: "@ + citation_key(s) + "\n\n"@
}

pub open spec fn matrix_entries(list: Seq<SourceView>) -> Seq<Seq<char>> {
    Seq::new(list.len(), |i: int| matrix_entry(i, list[i]))
}

/// The appendix with all sources.
pub open spec fn source_matrix(list: Seq<SourceView>) -> Seq<char> {
    "## Appendix A - Source Matrix\n\n"@ + pieces::join(matrix_entries(list), ""@)
}

/// The appendix with all sources.
pub fn build_source_matrix_section(list: &Vec<ResearchSource>) -> (r: String)
    ensures
        r@ == source_matrix(models::source_views(list@)),
{
    let ghost all = models::source_views(list@);
    let mut entries: Vec<String> = Vec::new();
    let mut i: usize = 0;
    assert(text::views(entries@) =~= matrix_entries(all).take(0));
    while i < list.len()
        invariant
            i <= list@.len(),
            all == models::source_views(list@),
            text::views(entries@) == matrix_entries(all).take(i as int),
        decreases list@.len() - i,
    {
        let source = &list[i];
        assert(all[i as int] == source@);
        let mut entry = text::copy("Material ");
        push_ordinal(&mut entry, i);
        entry.append(": ");
        entry.append(source.title.as_str());
        entry.append(" (");
        let year = sources::year_text(source.year_hint);
        entry.append(year.as_str());
        entry.append(")\nType: ");
        entry.append(source.source_type.as_str());
        entry.append("\nLocator: ");
        let url = copy_or(source.url.as_str(), "No URL captured");
        entry.append(url.as_str());
        entry.append("\nEvidence note: ");
        entry.append(source.summary.as_str());
        entry.append("\nSuggested citation: ");
        let key = derive_citation_key(source);
        entry.append(key.as_str());
        entry.append("\n\n");
        assert(matrix_entries(all).take(i + 1) =~= matrix_entries(all).take(i as int).push(
            entry@,
        ));
        entries.push(entry);
        i += 1;
    }
    assert(matrix_entries(all).take(i as int) =~= matrix_entries(all));
    let mut r = text::copy("## Appendix A - Source Matrix\n\n");
    let block = pieces::joined(&entries, "");
    r.append(block.as_str());
    r
}

// The bibliography without a model

pub open spec fn reference_lines(list: Seq<SourceView>) -> Seq<Seq<char>> {
    Seq::new(list.len(), |i: int| list[i].citation_hint + "\n"@)
}

/// The bibliography that the sources themselves suggest.
pub open spec fn plain_references(list: Seq<SourceView>, style: ReferenceStyle) -> Seq<char> {
    let heading = "## "@ + style.heading() + "\n\n"@;
    if list.len() == 0 {
        heading
            + "Retrieved live sources were unavailable, so no source-specific references could be compiled."@
    } else {
        trim::trim_end(heading + pieces::join(reference_lines(list), ""@))
    }
}

/// The bibliography that the sources themselves suggest.
pub fn fallback_references(list: &Vec<ResearchSource>, reference_style: &ReferenceStyle) -> (r:
    String)
    ensures
        r@ == plain_references(models::source_views(list@), *reference_style),
{
    let mut r = text::copy("## ");
    r.append(reference_style.bibliography_heading());
    r.append("\n\n");
    if list.len() == 0 {
        r.append(
            "Retrieved live sources were unavailable, so no source-specific references could be compiled.",
        );
        return r;
    }
    let ghost all = models::source_views(list@);
    let mut lines: Vec<String> = Vec::new();
    let mut i: usize = 0;
    assert(text::views(lines@) =~= reference_lines(all).take(0));
    while i < list.len()
        invariant
            i <= list@.len(),
            all == models::source_views(list@),
            text::views(lines@) == reference_lines(all).take(i as int),
        decreases list@.len() - i,
    {
        assert(all[i as int] == list@[i as int]@);
        let mut line = text::copy(list[i].citation_hint.as_str());
        line.append("\n");
        assert(reference_lines(all).take(i + 1) =~= reference_lines(all).take(i as int).push(
            line@,
        ));
        lines.push(line);
        i += 1;
    }
    assert(reference_lines(all).take(i as int) =~= reference_lines(all));
    let block = pieces::joined(&lines, "");
    r.append(block.as_str());
    trim::trimmed_end(r.as_str())
}

// Notes on what is written already

/// The research questions on one line.
pub open spec fn questions_text(questions: Seq<Seq<char>>) -> Seq<char> {
    if questions.len() == 0 {
        "What is the central problem, what does the evidence suggest, and what follows from the analysis?"@
    } else {
        pieces::join(questions, " | "@)
    }
}

/// The research questions on one line.
pub fn render_research_questions(questions: &Vec<String>) -> (r: String)
    ensures
        r@ == questions_text(text::views(questions@)),
{
    if questions.len() == 0 {
        return text::copy(
            "What is the central problem, what does the evidence suggest, and what follows from the analysis?",
        );
    }
    pieces::joined(questions, " | ")
}

pub open spec fn section_note(s: SectionView) -> Seq<char> {
    s.heading + ": "@ + excerpt::truncated(sections::preview(s.content, 320), 320)
}

pub open spec fn section_notes(list: Seq<SectionView>) -> Seq<Seq<char>> {
    Seq::new(list.len(), |i: int| section_note(list[i]))
}

/// What the sections before this one begin with.
pub open spec fn continuity(list: Seq<SectionView>) -> Seq<char> {
    if list.len() == 0 {
        "No previous sections yet. Set the tone and establish a clear foundation."@
    } else {
        pieces::join(section_notes(list), "\n"@)
    }
}

/// What the sections before this one begin with.
pub fn render_previous_sections(list: &Vec<ResearchSection>) -> (r: String)
    ensures
        r@ == continuity(models::section_views(list@)),
{
    if list.len() == 0 {
        return text::copy(
            "No previous sections yet. Set the tone and establish a clear foundation.",
        );
    }
    let ghost all = models::section_views(list@);
    let mut notes: Vec<String> = Vec::new();
    let mut i: usize = 0;
    assert(text::views(notes@) =~= section_notes(all).take(0));
    while i < list.len()
        invariant
            i <= list@.len(),
            all == models::section_views(list@),
            text::views(notes@) == section_notes(all).take(i as int),
        decreases list@.len() - i,
    {
        assert(all[i as int] == list@[i as int]@);
        let preview = sections::section_body_preview(list[i].content.as_str(), 320);
        let short = excerpt::truncate(preview.as_str(), 320);
        let mut note = text::copy(list[i].heading.as_str());
        note.append(": ");
        note.append(short.as_str());
        assert(section_notes(all).take(i + 1) =~= section_notes(all).take(i as int).push(note@));
        notes.push(note);
        i += 1;
    }
    assert(section_notes(all).take(i as int) =~= section_notes(all));
    pieces::joined(&notes, "\n")
}

pub open spec fn part_note(i: int, part: Seq<char>) -> Seq<char> {
    "Earlier prose excerpt "@ + ordinal(i) + ": "@ + excerpt::truncated(trim::trim(part), 260)
}

pub open spec fn part_notes(parts: Seq<Seq<char>>) -> Seq<Seq<char>> {
    Seq::new(parts.len(), |i: int| part_note(i, parts[i]))
}

/// What the parts before this one begin with.
pub open spec fn earlier_parts(parts: Seq<Seq<char>>) -> Seq<char> {
    if parts.len() == 0 {
        "No earlier fragments yet. Establish a clear starting point for the section."@
    } else {
        pieces::join(part_notes(parts), "\n"@)
    }
}

/// What the parts before this one begin with.
pub fn render_section_part_previews(parts: &Vec<String>) -> (r: String)
    ensures
        r@ == earlier_parts(text::views(parts@)),
{
    if parts.len() == 0 {
        return text::copy(
            "No earlier fragments yet. Establish a clear starting point for the section.",
        );
    }
    let ghost all = text::views(parts@);
    let mut notes: Vec<String> = Vec::new();
    let mut i: usize = 0;
    assert(text::views(notes@) =~= part_notes(all).take(0));
    while i < parts.len()
        invariant
            i <= parts@.len(),
            all == text::views(parts@),
            text::views(notes@) == part_notes(all).take(i as int),
        decreases parts@.len() - i,
    {
        assert(all[i as int] == parts@[i as int]@);
        let trimmed = trim::trimmed(parts[i].as_str());
        let short = excerpt::truncate(trimmed.as_str(), 260);
        let mut note = text::copy("Earlier prose excerpt ");
        push_ordinal(&mut note, i);
        note.append(": ");
        note.append(short.as_str());
        assert(part_notes(all).take(i + 1) =~= part_notes(all).take(i as int).push(note@));
        notes.push(note);
        i += 1;
    }
    assert(part_notes(all).take(i as int) =~= part_notes(all));
    pieces::joined(&notes, "\n")
}

// The report

/// What a report is written from.
pub struct ReportContext<'a> {
    pub topic: &'a str,
    pub tier: ResearchTier,
    pub reference_style: ReferenceStyle,
    pub plan: &'a ResearchPlan,
    pub sources: &'a Vec<ResearchSource>,
    pub spec: &'a DocumentSpec,
}

pub struct ReportContextView {
    pub topic: Seq<char>,
    pub tier: ResearchTier,
    pub reference_style: ReferenceStyle,
    pub plan: PlanView,
    pub sources: Seq<SourceView>,
    pub spec: DocumentView,
}

impl<'a> View for ReportContext<'a> {
    type V = ReportContextView;

    open spec fn view(&self) -> ReportContextView {
        ReportContextView {
            topic: self.topic@,
            tier: self.tier,
            reference_style: self.reference_style,
            plan: self.plan@,
            sources: models::source_views(self.sources@),
            spec: self.spec@,
        }
    }
}

pub open spec fn section_blocks(list: Seq<SectionView>) -> Seq<Seq<char>> {
    Seq::new(list.len(), |i: int| trim::trim(list[i].content) + "\n\n"@)
}

/// The report as one document: its title and data, its sections, its references and, where the
/// report has one and there are sources, the appendix.
pub open spec fn report_text(
    c: ReportContextView,
    list: Seq<SectionView>,
    references: Seq<char>,
) -> Seq<char> {
    let body = "# "@ + trim::trim(c.plan.title) + "\n\n"@ + "Topic: "@ + trim::trim(c.topic)
        + "\n"@ + "Deliverable: "@ + c.spec.deliverable + "\n"@ + "Tier: "@ + c.tier.name() + "\n"@
        + "Reference style: "@ + c.reference_style.name() + "\n"@ + "Citation target: "@
        + numbers::decimal(c.tier.citations() as nat) + "\n"@ + "Keywords: "@ + pieces::join(
        c.plan.keywords,
        ", "@,
    ) + "\n\n"@ + pieces::join(section_blocks(list), ""@) + trim::trim(references) + "\n"@;
    if c.spec.include_source_matrix && c.sources.len() > 0 {
        body + "\n"@ + source_matrix(c.sources)
    } else {
        body
    }
}

/// Puts the report together.
pub fn assemble_report_markdown(
    report_context: &ReportContext,
    list: &Vec<ResearchSection>,
    references: &str,
) -> (r: String)
    ensures
        r@ == report_text(report_context@, models::section_views(list@), references@),
{
    let ghost all = models::section_views(list@);
    let mut blocks: Vec<String> = Vec::new();
    let mut i: usize = 0;
    assert(text::views(blocks@) =~= section_blocks(all).take(0));
    while i < list.len()
        invariant
            i <= list@.len(),
            all == models::section_views(list@),
            text::views(blocks@) == section_blocks(all).take(i as int),
        decreases list@.len() - i,
    {
        assert(all[i as int] == list@[i as int]@);
        let mut block = trim::trimmed(list[i].content.as_str());
        block.append("\n\n");
        assert(section_blocks(all).take(i + 1) =~= section_blocks(all).take(i as int).push(
            block@,
        ));
        blocks.push(block);
        i += 1;
    }
    assert(section_blocks(all).take(i as int) =~= section_blocks(all));
    let plan = report_context.plan;
    let mut r = text::copy("# ");
    let title = trim::trimmed(plan.title.as_str());
    r.append(title.as_str());
    r.append("\n\n");
    r.append("Topic: ");
    let topic = trim::trimmed(report_context.topic);
    r.append(topic.as_str());
    r.append("\n");
    r.append("Deliverable: ");
    r.append(report_context.spec.deliverable);
    r.append("\n");
    r.append("Tier: ");
    r.append(report_context.tier.label());
    r.append("\n");
    r.append("Reference style: ");
    r.append(report_context.reference_style.label());
    r.append("\n");
    r.append("Citation target: ");
    numbers::push_decimal(&mut r, report_context.tier.citation_target() as u64);
    r.append("\n");
    r.append("Keywords: ");
    let keywords = pieces::joined(&plan.keywords, ", ");
    r.append(keywords.as_str());
    r.append("\n\n");
    let body = pieces::joined(&blocks, "");
    r.append(body.as_str());
    let refs = trim::trimmed(references);
    r.append(refs.as_str());
    r.append("\n");
    assert(models::source_views(report_context.sources@).len() == report_context.sources@.len());
    if report_context.spec.include_source_matrix && report_context.sources.len() > 0 {
        r.append("\n");
        let matrix = build_source_matrix_section(report_context.sources);
        r.append(matrix.as_str());
    }
    r
}

// WhatsApp briefs

pub open spec fn source_packet(i: int, s: SourceView) -> Seq<char> {
    "["@ + ordinal(i) + "] type="@ + s.source_type + " | title="@ + s.title + " | source="@
        + s.author_or_channel + " | url="@ + or_else(s.url, "N/A"@) + " | summary="@
        + pieces::replace(s.summary, "\n"@, " "@) + "\n"@
}

pub open spec fn source_packets(list: Seq<SourceView>) -> Seq<Seq<char>> {
    Seq::new(sources::at_most(list, 14).len(), |i: int| source_packet(i, list[i]))
}

/// The sources of a brief, one to a line and at most fourteen.
pub open spec fn packets_text(list: Seq<SourceView>) -> Seq<char> {
    if list.len() == 0 {
        "No live sources were available. Give a careful, uncertainty-aware answer and say the evidence base is thin."@
    } else {
        pieces::join(source_packets(list), ""@)
    }
}

/// The sources of a brief, one to a line and at most fourteen.
pub fn render_whatsapp_source_packets(list: &Vec<ResearchSource>) -> (r: String)
    ensures
        r@ == packets_text(models::source_views(list@)),
{
    if list.len() == 0 {
        return text::copy(
            "No live sources were available. Give a careful, uncertainty-aware answer and say the evidence base is thin.",
        );
    }
    let ghost all = models::source_views(list@);
    let mut packets: Vec<String> = Vec::new();
    let mut i: usize = 0;
    assert(text::views(packets@) =~= source_packets(all).take(0));
    while i < list.len() && i < 14
        invariant
            i <= list@.len(),
            i <= 14,
            all == models::source_views(list@),
            text::views(packets@) == source_packets(all).take(i as int),
        decreases list@.len() - i,
    {
        let source = &list[i];
        assert(all[i as int] == source@);
        let mut packet = text::copy("[");
        push_ordinal(&mut packet, i);
        packet.append("] type=");
        packet.append(source.source_type.as_str());
        packet.append(" | title=");
        packet.append(source.title.as_str());
        packet.append(" | source=");
        packet.append(source.author_or_channel.as_str());
        packet.append(" | url=");
        let url = copy_or(source.url.as_str(), "N/A");
        packet.append(url.as_str());
        packet.append(" | summary=");
        proof {
            reveal_strlit("\n");
        }
        let summary = pieces::replaced(source.summary.as_str(), "\n", " ");
        packet.append(summary.as_str());
        packet.append("\n");
        assert(source_packets(all).take(i + 1) =~= source_packets(all).take(i as int).push(
            packet@,
        ));
        packets.push(packet);
        i += 1;
    }
    assert(source_packets(all).take(i as int) =~= source_packets(all));
    pieces::joined(&packets, "")
}

pub open spec fn summary_line(s: SourceView) -> Seq<char> {
    "- "@ + s.title + ": "@ + excerpt::truncated(s.summary, 180)
}

pub open spec fn link_line(s: SourceView) -> Seq<char> {
    if s.url.len() == 0 {
        "- "@ + s.title + " ("@ + s.source_type + ")"@
    } else {
        "- "@ + s.title + " — "@ + s.url
    }
}

pub open spec fn book_line(s: SourceView) -> Seq<char> {
    if s.url.len() == 0 {
        "- "@ + s.title + " by "@ + s.author_or_channel
    } else {
        "- "@ + s.title + " by "@ + s.author_or_channel + " — "@ + s.url
    }
}

pub open spec fn book_test() -> spec_fn(SourceView) -> bool {
    |s: SourceView| s.source_type == "book"@ || s.source_type == "public_domain_book"@
}

pub open spec fn summary_lines(list: Seq<SourceView>) -> Seq<Seq<char>> {
    Seq::new(sources::at_most(list, 3).len(), |i: int| summary_line(list[i]))
}

pub open spec fn link_lines(list: Seq<SourceView>) -> Seq<Seq<char>> {
    Seq::new(sources::at_most(list, 5).len(), |i: int| link_line(list[i]))
}

pub open spec fn book_lines(list: Seq<SourceView>) -> Seq<Seq<char>> {
    let books = list.filter(book_test());
    Seq::new(sources::at_most(books, 3).len(), |i: int| book_line(books[i]))
}

/// A block of lines under a heading, where there are any.
pub open spec fn block(heading: Seq<char>, lines: Seq<Seq<char>>) -> Seq<char> {
    if lines.len() == 0 {
        seq![]
    } else {
        heading + pieces::join(lines, "\n"@)
    }
}

/// The brief that the sources themselves make up.
pub open spec fn plain_brief(topic: Seq<char>, list: Seq<SourceView>) -> Seq<char> {
    "Research brief: "@ + topic
        + "\n\nI pulled what I could from web search, YouTube, public discussion, and legal book sources. The strongest immediate signal is below.\n\nWhat stands out:\n"@
        + (if list.len() == 0 {
        "- I could not retrieve live sources for this topic, so the answer should be treated cautiously."@
    } else {
        pieces::join(summary_lines(list), "\n"@)
    }) + block("\n\nSources to open:\n"@, link_lines(list)) + block(
        "\n\nBooks:\n"@,
        book_lines(list),
    )
}

fn say_summary(s: &ResearchSource) -> (r: String)
    ensures
        r@ == summary_line(s@),
{
    let mut line = text::copy("- ");
    line.append(s.title.as_str());
    line.append(": ");
    let short = excerpt::truncate(s.summary.as_str(), 180);
    line.append(short.as_str());
    line
}

fn say_link(s: &ResearchSource) -> (r: String)
    ensures
        r@ == link_line(s@),
{
    let mut line = text::copy("- ");
    line.append(s.title.as_str());
    if s.url.as_str().is_empty() {
        line.append(" (");
        line.append(s.source_type.as_str());
        line.append(")");
    } else {
        line.append(" — ");
        line.append(s.url.as_str());
    }
    line
}

fn say_book(s: &ResearchSource) -> (r: String)
    ensures
        r@ == book_line(s@),
{
    let mut line = text::copy("- ");
    line.append(s.title.as_str());
    line.append(" by ");
    line.append(s.author_or_channel.as_str());
    if !s.url.as_str().is_empty() {
        line.append(" — ");
        line.append(s.url.as_str());
    }
    line
}

fn list_books(list: &Vec<ResearchSource>) -> (r: Vec<String>)
    ensures
        text::views(r@) == book_lines(models::source_views(list@)),
{
    let ghost all = models::source_views(list@);
    let ghost books = all.filter(book_test());
    let mut lines: Vec<String> = Vec::new();
    let mut i: usize = 0;
    proof {
        pieces::lemma_filter_ends(all, book_test());
    }
    assert(text::views(lines@) =~= book_lines(all).take(0));
    while i < list.len() && lines.len() < 3
        invariant
            i <= list@.len(),
            lines@.len() <= 3,
            all == models::source_views(list@),
            books == all.filter(book_test()),
            lines@.len() == all.take(i as int).filter(book_test()).len(),
            lines@.len() <= books.len(),
            text::views(lines@) == book_lines(all).take(lines@.len() as int),
        decreases list@.len() - i,
    {
        let source = &list[i];
        proof {
            pieces::lemma_filter_step(all, book_test(), i as int);
            lemma_filter_front(all, book_test(), i + 1);
        }
        if text::same(source.source_type.as_str(), "book") || text::same(
            source.source_type.as_str(),
            "public_domain_book",
        ) {
            let line = say_book(source);
            let ghost n = lines@.len() as int;
            assert(all.take(i + 1).filter(book_test())[n] == source@);
            assert(books[n] == source@);
            assert(book_lines(all).take(n + 1) =~= book_lines(all).take(n).push(line@));
            lines.push(line);
        }
        i += 1;
    }
    proof {
        if i == list@.len() {
            assert(all.take(i as int) == all);
        }
        assert(text::views(lines@).len() == lines@.len());
        assert(book_lines(all).take(lines@.len() as int) =~= book_lines(all));
    }
    lines
}

/// What a filter lets through of a beginning comes first in what it lets through.
proof fn lemma_filter_front<A>(s: Seq<A>, p: spec_fn(A) -> bool, i: int)
    requires
        0 <= i <= s.len(),
    ensures
        s.take(i).filter(p).len() <= s.filter(p).len(),
        forall|k: int|
            0 <= k < s.take(i).filter(p).len() ==> #[trigger] s.take(i).filter(p)[k] == s.filter(
                p,
            )[k],
{
    assert(s.take(i) + s.skip(i) =~= s);
    Seq::filter_distributes_over_add(s.take(i), s.skip(i), p);
}

/// The brief that the sources themselves make up.
pub fn fallback_whatsapp_brief(topic: &str, list: &Vec<ResearchSource>) -> (r: String)
    ensures
        r@ == plain_brief(topic@, models::source_views(list@)),
{
    let ghost all = models::source_views(list@);
    let mut summaries: Vec<String> = Vec::new();
    let mut links: Vec<String> = Vec::new();
    let mut i: usize = 0;
    assert(text::views(summaries@) =~= summary_lines(all).take(0));
    while i < list.len() && i < 3
        invariant
            i <= list@.len(),
            i <= 3,
            all == models::source_views(list@),
            text::views(summaries@) == summary_lines(all).take(i as int),
        decreases list@.len() - i,
    {
        assert(all[i as int] == list@[i as int]@);
        let line = say_summary(&list[i]);
        assert(summary_lines(all).take(i + 1) =~= summary_lines(all).take(i as int).push(line@));
        summaries.push(line);
        i += 1;
    }
    assert(summary_lines(all).take(i as int) =~= summary_lines(all));
    let mut k: usize = 0;
    assert(text::views(links@) =~= link_lines(all).take(0));
    while k < list.len() && k < 5
        invariant
            k <= list@.len(),
            k <= 5,
            all == models::source_views(list@),
            text::views(links@) == link_lines(all).take(k as int),
        decreases list@.len() - k,
    {
        assert(all[k as int] == list@[k as int]@);
        let line = say_link(&list[k]);
        assert(link_lines(all).take(k + 1) =~= link_lines(all).take(k as int).push(line@));
        links.push(line);
        k += 1;
    }
    assert(link_lines(all).take(k as int) =~= link_lines(all));
    let books = list_books(list);
    let mut r = text::copy("Research brief: ");
    r.append(topic);
    r.append(
        "\n\nI pulled what I could from web search, YouTube, public discussion, and legal book sources. The strongest immediate signal is below.\n\nWhat stands out:\n",
    );
    if list.len() == 0 {
        r.append(
            "- I could not retrieve live sources for this topic, so the answer should be treated cautiously.",
        );
    } else {
        let t = pieces::joined(&summaries, "\n");
        r.append(t.as_str());
    }
    let link_block = under_heading("\n\nSources to open:\n", &links);
    r.append(link_block.as_str());
    let book_block = under_heading("\n\nBooks:\n", &books);
    r.append(book_block.as_str());
    r
}

fn under_heading(heading: &str, lines: &Vec<String>) -> (r: String)
    ensures
        r@ == block(heading@, text::views(lines@)),
{
    assert(text::views(lines@).len() == lines@.len());
    if lines.len() == 0 {
        let r = String::new();
        assert(r@ =~= seq![]);
        return r;
    }
    let mut r = text::copy(heading);
    let t = pieces::joined(lines, "\n");
    r.append(t.as_str());
    r
}

/// The answer of a model as a brief: of limited length, and the plain brief where it is empty.
pub open spec fn brief_text(
    answer: Seq<char>,
    topic: Seq<char>,
    list: Seq<SourceView>,
) -> Seq<char> {
    let t = trim::trim(sections::without_fences(answer));
    if t.len() == 0 {
        plain_brief(topic, list)
    } else {
        excerpt::truncated(t, 3_400)
    }
}

/// Makes a brief of the answer of a model.
pub fn normalize_whatsapp_answer(t: &str, topic: &str, list: &Vec<ResearchSource>) -> (r: String)
    ensures
        r@ == brief_text(t@, topic@, models::source_views(list@)),
{
    let bare = sections::strip_code_fences(t);
    let answer = trim::trimmed(bare.as_str());
    if answer.as_str().is_empty() {
        return fallback_whatsapp_brief(topic, list);
    }
    if bytes::byte_length(answer.as_str()) > 3_400 {
        return excerpt::truncate(answer.as_str(), 3_400);
    }
    answer
}

/// The number of public-domain books among the sources.
pub open spec fn public_domain_test() -> spec_fn(SourceView) -> bool {
    |s: SourceView| s.source_type == "public_domain_book"@
}

/// The number of public-domain books among the sources.
pub fn count_public_domain_books(list: &Vec<ResearchSource>) -> (r: usize)
    ensures
        r == models::source_views(list@).filter(public_domain_test()).len(),
{
    let ghost all = models::source_views(list@);
    let mut n: usize = 0;
    let mut i: usize = 0;
    proof {
        pieces::lemma_filter_ends(all, public_domain_test());
    }
    while i < list.len()
        invariant
            i <= list@.len(),
            n <= i,
            all == models::source_views(list@),
            n == all.take(i as int).filter(public_domain_test()).len(),
        decreases list@.len() - i,
    {
        proof {
            pieces::lemma_filter_step(all, public_domain_test(), i as int);
        }
        if text::same(list[i].source_type.as_str(), "public_domain_book") {
            n += 1;
        }
        i += 1;
    }
    proof {
        pieces::lemma_filter_ends(all, public_domain_test());
    }
    n
}

} // verus!
