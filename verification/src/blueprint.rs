//! What a report of each tier consists of: its sections, their parts, and the length and number of
//! citations that each of them owes.

use crate::models;
use crate::models::{ResearchSection, ResearchTier, SectionView};
use crate::text;
use vstd::prelude::*;

verus! {

broadcast use models::lemma_section_views_push;

/// The share of its target length, in per cent, below which a section is refused.
pub const SECTION_WORD_FLOOR_PERCENT: usize = 20;

/// The share of its target length, in per cent, below which a part of a section is refused.
pub const SECTION_PART_WORD_FLOOR_PERCENT: usize = 30;

/// A part of a section.
#[derive(Debug)]
pub struct SectionPartBlueprint {
    pub label: &'static str,
    pub brief: &'static str,
    pub target_words: usize,
    pub minimum_citations: usize,
}

/// A section of a report.
#[derive(Debug)]
pub struct SectionBlueprint {
    pub heading: &'static str,
    pub brief: &'static str,
    pub target_words: usize,
    pub citation_expectation: &'static str,
    pub minimum_citations: usize,
    pub parts: Vec<SectionPartBlueprint>,
}

/// A report.
#[derive(Debug)]
pub struct DocumentSpec {
    pub deliverable: &'static str,
    pub minimum_words: usize,
    pub section_blueprints: Vec<SectionBlueprint>,
    pub include_source_matrix: bool,
}

pub struct PartView {
    pub label: Seq<char>,
    pub brief: Seq<char>,
    pub target_words: int,
    pub minimum_citations: int,
}

pub struct BlueprintView {
    pub heading: Seq<char>,
    pub brief: Seq<char>,
    pub target_words: int,
    pub citation_expectation: Seq<char>,
    pub minimum_citations: int,
    pub parts: Seq<PartView>,
}

pub struct DocumentView {
    pub deliverable: Seq<char>,
    pub minimum_words: int,
    pub sections: Seq<BlueprintView>,
    pub include_source_matrix: bool,
}

impl View for SectionPartBlueprint {
    type V = PartView;

    open spec fn view(&self) -> PartView {
        PartView {
            label: self.label@,
            brief: self.brief@,
            target_words: self.target_words as int,
            minimum_citations: self.minimum_citations as int,
        }
    }
}

impl View for SectionBlueprint {
    type V = BlueprintView;

    open spec fn view(&self) -> BlueprintView {
        BlueprintView {
            heading: self.heading@,
            brief: self.brief@,
            target_words: self.target_words as int,
            citation_expectation: self.citation_expectation@,
            minimum_citations: self.minimum_citations as int,
            parts: part_views(self.parts@),
        }
    }
}

impl View for DocumentSpec {
    type V = DocumentView;

    open spec fn view(&self) -> DocumentView {
        DocumentView {
            deliverable: self.deliverable@,
            minimum_words: self.minimum_words as int,
            sections: blueprint_views(self.section_blueprints@),
            include_source_matrix: self.include_source_matrix,
        }
    }
}

/// The contents of a list of parts.
pub open spec fn part_views(list: Seq<SectionPartBlueprint>) -> Seq<PartView> {
    Seq::new(list.len(), |i: int| list[i]@)
}

/// The contents of a list of sections.
pub open spec fn blueprint_views(list: Seq<SectionBlueprint>) -> Seq<BlueprintView> {
    Seq::new(list.len(), |i: int| list[i]@)
}

// The reports of the tiers

pub open spec fn part_view(
    label: Seq<char>,
    brief: Seq<char>,
    target_words: int,
    minimum_citations: int,
) -> PartView {
    PartView { label, brief, target_words, minimum_citations }
}

pub open spec fn section_view(
    heading: Seq<char>,
    brief: Seq<char>,
    target_words: int,
    citation_expectation: Seq<char>,
    minimum_citations: int,
    parts: Seq<PartView>,
) -> BlueprintView {
    BlueprintView {
        heading,
        brief,
        target_words,
        citation_expectation,
        minimum_citations,
        parts,
    }
}

/// The sections of a briefing.
pub open spec fn briefing_outline() -> Seq<BlueprintView> {
    seq![
        section_view(
            "Executive Summary"@,
            "Open with the core issue, why it matters, the lens of analysis, and the most important conclusion in a polished briefing style."@,
            350,
            "Use 1-2 well-placed citations if they materially strengthen the summary."@,
            1,
            seq![
                part_view(
                    "Core framing"@,
                    "State the issue, establish relevance, and define the paper's central stance in concise academic prose."@,
                    180,
                    1,
                ),
                part_view(
                    "High-level takeaway"@,
                    "Summarize the most important analytical takeaway and practical implication without lapsing into note form."@,
                    170,
                    0,
                ),
            ],
        ),
        section_view(
            "Background and Context"@,
            "Explain the topic, its academic and practical relevance, and the surrounding context in connected prose."@,
            450,
            "Ground the context in the retrieved sources and avoid generic filler."@,
            2,
            seq![
                part_view(
                    "Context and relevance"@,
                    "Explain the broader setting, timeline, and why the topic matters academically and practically."@,
                    220,
                    1,
                ),
                part_view(
                    "Problem framing"@,
                    "Narrow the discussion to the specific problem, tension, or opportunity that motivates the report."@,
                    230,
                    1,
                ),
            ],
        ),
        section_view(
            "Key Findings and Analysis"@,
            "Present the main findings, points of agreement or disagreement across sources, and analytical insight."@,
            500,
            "Integrate multiple citations and make the analysis feel evidence-led."@,
            2,
            seq![
                part_view(
                    "Evidence patterns"@,
                    "Synthesize what the sources consistently suggest and note important contrasts where they appear."@,
                    250,
                    1,
                ),
                part_view(
                    "Interpretation"@,
                    "Explain what the evidence means, why it matters, and how the findings should be interpreted."@,
                    250,
                    1,
                ),
            ],
        ),
        section_view(
            "Recommendations"@,
            "Conclude with practical, research-backed recommendations tailored to the topic."@,
            250,
            "Use citations only where they improve credibility."@,
            1,
            seq![
                part_view(
                    "Actionable recommendations"@,
                    "Offer grounded recommendations that follow directly from the evidence and analysis."@,
                    140,
                    0,
                ),
                part_view(
                    "Closing implication"@,
                    "End with a concise forward-looking implication or caution for decision-makers."@,
                    110,
                    1,
                ),
            ],
        ),
    ]
}

/// The sections of a paper.
pub open spec fn paper_outline() -> Seq<BlueprintView> {
    seq![
        section_view(
            "Abstract"@,
            "Summarize the topic, aim, approach, key findings, and overall implication in a journal-style abstract."@,
            320,
            "Citations are optional; keep the abstract clean and concise."@,
            1,
            seq![
                part_view(
                    "Study framing"@,
                    "Condense the topic, objective, and analytical approach into compact journal-style prose."@,
                    160,
                    0,
                ),
                part_view(
                    "Findings and implication"@,
                    "Summarize the main finding and broader implication in a polished closing movement."@,
                    160,
                    1,
                ),
            ],
        ),
        section_view(
            "Introduction"@,
            "Establish the broader context, narrow to the specific problem, define the aim, and articulate the paper's significance."@,
            1_700,
            "Use citations to situate the topic and justify the problem statement."@,
            3,
            seq![
                part_view(
                    "Context and trendline"@,
                    "Establish the broader background, current relevance, and major developments shaping the topic."@,
                    450,
                    1,
                ),
                part_view(
                    "Problem statement"@,
                    "Narrow from general context to the concrete problem, tension, or opportunity the paper addresses."@,
                    450,
                    1,
                ),
                part_view(
                    "Objectives and questions"@,
                    "Explain the aim of the paper and connect it to the key research questions guiding the study."@,
                    400,
                    1,
                ),
                part_view(
                    "Significance and structure"@,
                    "Clarify the significance of the paper and set up the argumentative path of the remaining sections."@,
                    400,
                    0,
                ),
            ],
        ),
        section_view(
            "Literature Review"@,
            "Critically synthesize the evidence, compare viewpoints, identify patterns, tensions, and gaps, and build the conceptual foundation for the paper."@,
            2_600,
            "This section should carry the heaviest citation load and read as analysis rather than a list of summaries."@,
            5,
            seq![
                part_view(
                    "Conceptual foundations"@,
                    "Explain the key concepts, definitions, and theoretical framing that recur across the literature."@,
                    650,
                    1,
                ),
                part_view(
                    "Empirical patterns"@,
                    "Synthesize the strongest empirical findings and show where scholars broadly converge."@,
                    650,
                    2,
                ),
                part_view(
                    "Debates and tensions"@,
                    "Compare competing interpretations, contradictions, or unresolved tensions in the literature."@,
                    650,
                    1,
                ),
                part_view(
                    "Gaps and synthesis"@,
                    "Identify gaps, limits, and unanswered questions, then show how they justify the paper's analytical direction."@,
                    650,
                    1,
                ),
            ],
        ),
        section_view(
            "Methodology"@,
            "Explain the research design as a defensible literature-driven or conceptual study, including source selection, analytical lens, and limitations."@,
            1_350,
            "Use a few citations where methodological framing benefits from them."@,
            2,
            seq![
                part_view(
                    "Research design"@,
                    "Describe the overall design and justify why it fits the topic and available evidence."@,
                    350,
                    1,
                ),
                part_view(
                    "Source selection"@,
                    "Explain how sources were identified, screened, and used in the paper."@,
                    350,
                    1,
                ),
                part_view(
                    "Analytical procedure"@,
                    "Describe the thematic, comparative, or interpretive logic used to analyze the evidence."@,
                    325,
                    0,
                ),
                part_view(
                    "Limitations"@,
                    "State the design's limitations and the implications those limits have for interpretation."@,
                    325,
                    0,
                ),
            ],
        ),
        section_view(
            "Discussion"@,
            "Interpret the evidence, connect findings back to the problem, discuss implications, and maintain a strong argumentative thread."@,
            3_000,
            "Blend citations with original analytical commentary throughout."@,
            5,
            seq![
                part_view(
                    "Operational interpretation"@,
                    "Analyze how the evidence plays out in practice and what concrete patterns emerge from the literature."@,
                    750,
                    1,
                ),
                part_view(
                    "Strategic implications"@,
                    "Discuss wider organizational, market, or policy implications flowing from the findings."@,
                    750,
                    1,
                ),
                part_view(
                    "Risks and constraints"@,
                    "Explain tradeoffs, implementation barriers, and reasons the issue remains contested or uneven."@,
                    750,
                    1,
                ),
                part_view(
                    "Integrated discussion"@,
                    "Bring the evidence together into a clear argumentative synthesis that answers the research problem."@,
                    750,
                    2,
                ),
            ],
        ),
        section_view(
            "Conclusion & Recommendations"@,
            "Synthesize the argument, state the answer to the research problem, note limitations, and close with grounded recommendations."@,
            1_250,
            "Use citations selectively and keep the emphasis on synthesis."@,
            2,
            seq![
                part_view(
                    "Argument synthesis"@,
                    "Restate the central argument and the paper's answer to the research problem in integrated prose."@,
                    400,
                    1,
                ),
                part_view(
                    "Practical recommendations"@,
                    "Present recommendations that follow directly from the analysis and evidence."@,
                    350,
                    0,
                ),
                part_view(
                    "Limitations and future inquiry"@,
                    "Acknowledge key limits and suggest plausible directions for future research or implementation."@,
                    250,
                    0,
                ),
                part_view(
                    "Closing reflection"@,
                    "End with a strong final implication that leaves the paper feeling complete and academically grounded."@,
                    250,
                    1,
                ),
            ],
        ),
    ]
}

/// The sections of a full project.
pub open spec fn project_outline() -> Seq<BlueprintView> {
    seq![
        section_view(
            "Abstract"@,
            "Write a submission-ready abstract that states the problem, objective, approach, major findings, and contribution."@,
            350,
            "Avoid overloading the abstract with citations."@,
            1,
            seq![
                part_view(
                    "Study overview"@,
                    "Condense the study focus, objective, and analytical approach into formal abstract prose."@,
                    175,
                    0,
                ),
                part_view(
                    "Contribution"@,
                    "Summarize the main finding, contribution, and practical relevance in a polished close."@,
                    175,
                    1,
                ),
            ],
        ),
        section_view(
            "Introduction"@,
            "Write a full chapter in connected prose covering background, problem statement, objectives, scope, significance, and the study rationale."@,
            3_000,
            "Use citations throughout to anchor the background and problem framing."@,
            5,
            seq![
                part_view(
                    "Background of the study"@,
                    "Develop a strong contextual background and explain the broader forces shaping the topic."@,
                    700,
                    1,
                ),
                part_view(
                    "Problem statement and rationale"@,
                    "Define the central research problem and justify why it merits focused investigation."@,
                    750,
                    2,
                ),
                part_view(
                    "Objectives, questions, and scope"@,
                    "Clarify the study objectives, research questions, and scope in sustained prose."@,
                    750,
                    1,
                ),
                part_view(
                    "Significance of the study"@,
                    "Explain the academic and practical significance of the project and transition into the remaining chapters."@,
                    800,
                    1,
                ),
            ],
        ),
        section_view(
            "Literature Review"@,
            "Deliver an intensely academic literature review that organizes major theoretical paradigms, critiques methodological limits, and identifies distinct gaps in the literature."@,
            4_800,
            "This chapter must be exceptionally dense with theory and heavily cited."@,
            12,
            seq![
                part_view(
                    "Theoretical and conceptual framing"@,
                    "Establish the dominant theoretical lenses structuring the problem domain."@,
                    1_200,
                    3,
                ),
                part_view(
                    "Empirical synthesis and thematic alignment"@,
                    "Synthesize recurring empirical evidence into coherent academic themes."@,
                    1_200,
                    3,
                ),
                part_view(
                    "Scholarly contradictions and epistemological debates"@,
                    "Rigorously contrast conflicting methodologies and epistemological tensions within the field."@,
                    1_200,
                    3,
                ),
                part_view(
                    "Research gaps and structural synthesis"@,
                    "Expose critical gaps and synthesize how current boundaries necessitate this study."@,
                    1_200,
                    3,
                ),
            ],
        ),
        section_view(
            "Methodology"@,
            "Write a highly robust methodology chapter justifying the epistemological stance, exact research framework, and boundary limitations using rigorous academic conventions."@,
            2_200,
            "Anchor methodological choices to established scientific literature."@,
            5,
            seq![
                part_view(
                    "Epistemological stance and research design"@,
                    "Defend the core research philosophy and structural design paradigm."@,
                    550,
                    1,
                ),
                part_view(
                    "Source aggregation and sampling parameters"@,
                    "Define strict parameters for source selection, sampling scope, and inclusion logic."@,
                    550,
                    2,
                ),
                part_view(
                    "Analytical processing and synthesis techniques"@,
                    "Mechanically detail the analytical operations applied to the literature and data."@,
                    550,
                    1,
                ),
                part_view(
                    "Validity, triangulation, and study boundaries"@,
                    "Address methodological rigor, ethical limits, and structural boundaries of the study."@,
                    550,
                    1,
                ),
            ],
        ),
        section_view(
            "Discussion"@,
            "Produce an advanced analytical chapter where raw findings are abstracted into high-level theoretical insights, integrating rigorous academic critique."@,
            5_100,
            "Do not merely summarize; abstract findings back up to the theoretical frame."@,
            10,
            seq![
                part_view(
                    "Synthesis of primary findings"@,
                    "Translate raw empirical data into clear vectors of academic discovery."@,
                    1_300,
                    2,
                ),
                part_view(
                    "Theoretical significance of discovered patterns"@,
                    "Examine causal mechanisms and abstract the empirical findings into theoretical domains."@,
                    1_300,
                    3,
                ),
                part_view(
                    "Critical implications and disciplinary friction"@,
                    "Surface profound theoretical contradictions and practical implications confronting the discipline."@,
                    1_300,
                    3,
                ),
                part_view(
                    "Integrative chapter synthesis"@,
                    "Close with a sophisticated macro-synthesis anchoring the discussion back to the original thesis."@,
                    1_200,
                    2,
                ),
            ],
        ),
        section_view(
            "Conclusion"@,
            "Conclude the project by delivering an authoritative, highly condensed final synthesis. Do not introduce new evidence."@,
            900,
            "Keep the ending highly concise and intellectually definitive."@,
            1,
            seq![
                part_view(
                    "Synthesis of primary conclusions"@,
                    "A deeply academic synthesis of the primary discoveries, weighing their ultimate theoretical and practical significance."@,
                    450,
                    0,
                ),
                part_view(
                    "Strategic recommendations and final reflection"@,
                    "Actionable recommendations derived from the data, acknowledging constraints, ending with a definitive final academic reflection."@,
                    450,
                    1,
                ),
            ],
        ),
    ]
}

/// The sections of the report of a tier.
pub open spec fn outline_of(tier: ResearchTier) -> Seq<BlueprintView> {
    match tier {
        ResearchTier::Preview => briefing_outline(),
        ResearchTier::Starter => paper_outline(),
        ResearchTier::Standard => paper_outline(),
        ResearchTier::Complete => project_outline(),
    }
}

/// The report of a tier.
pub open spec fn document_of(tier: ResearchTier) -> DocumentView {
    DocumentView {
        deliverable: tier.deliverable(),
        minimum_words: tier.least_words(),
        sections: outline_of(tier),
        include_source_matrix: tier is Complete,
    }
}

/// A section of a report.
pub fn section_blueprint(
    heading: &'static str,
    brief: &'static str,
    target_words: usize,
    citation_expectation: &'static str,
    minimum_citations: usize,
    parts: Vec<SectionPartBlueprint>,
) -> (r: SectionBlueprint)
    ensures
        r@ == section_view(
            heading@,
            brief@,
            target_words as int,
            citation_expectation@,
            minimum_citations as int,
            part_views(parts@),
        ),
{
    SectionBlueprint {
        heading,
        brief,
        target_words,
        citation_expectation,
        minimum_citations,
        parts,
    }
}

/// A part of a section.
pub fn section_part(
    label: &'static str,
    brief: &'static str,
    target_words: usize,
    minimum_citations: usize,
) -> (r: SectionPartBlueprint)
    ensures
        r@ == part_view(label@, brief@, target_words as int, minimum_citations as int),
{
    SectionPartBlueprint { label, brief, target_words, minimum_citations }
}

fn briefing_sections() -> (r: Vec<SectionBlueprint>)
    ensures
        blueprint_views(r@) == briefing_outline(),
{
    let r = vec![
        section_blueprint(
            "Executive Summary",
            "Open with the core issue, why it matters, the lens of analysis, and the most important conclusion in a polished briefing style.",
            350,
            "Use 1-2 well-placed citations if they materially strengthen the summary.",
            1,
            vec![
                section_part(
                    "Core framing",
                    "State the issue, establish relevance, and define the paper's central stance in concise academic prose.",
                    180,
                    1,
                ),
                section_part(
                    "High-level takeaway",
                    "Summarize the most important analytical takeaway and practical implication without lapsing into note form.",
                    170,
                    0,
                ),
            ],
        ),
        section_blueprint(
            "Background and Context",
            "Explain the topic, its academic and practical relevance, and the surrounding context in connected prose.",
            450,
            "Ground the context in the retrieved sources and avoid generic filler.",
            2,
            vec![
                section_part(
                    "Context and relevance",
                    "Explain the broader setting, timeline, and why the topic matters academically and practically.",
                    220,
                    1,
                ),
                section_part(
                    "Problem framing",
                    "Narrow the discussion to the specific problem, tension, or opportunity that motivates the report.",
                    230,
                    1,
                ),
            ],
        ),
        section_blueprint(
            "Key Findings and Analysis",
            "Present the main findings, points of agreement or disagreement across sources, and analytical insight.",
            500,
            "Integrate multiple citations and make the analysis feel evidence-led.",
            2,
            vec![
                section_part(
                    "Evidence patterns",
                    "Synthesize what the sources consistently suggest and note important contrasts where they appear.",
                    250,
                    1,
                ),
                section_part(
                    "Interpretation",
                    "Explain what the evidence means, why it matters, and how the findings should be interpreted.",
                    250,
                    1,
                ),
            ],
        ),
        section_blueprint(
            "Recommendations",
            "Conclude with practical, research-backed recommendations tailored to the topic.",
            250,
            "Use citations only where they improve credibility.",
            1,
            vec![
                section_part(
                    "Actionable recommendations",
                    "Offer grounded recommendations that follow directly from the evidence and analysis.",
                    140,
                    0,
                ),
                section_part(
                    "Closing implication",
                    "End with a concise forward-looking implication or caution for decision-makers.",
                    110,
                    1,
                ),
            ],
        ),
    ];
    assert(r@[0]@.parts =~= briefing_outline()[0].parts);
    assert(r@[1]@.parts =~= briefing_outline()[1].parts);
    assert(r@[2]@.parts =~= briefing_outline()[2].parts);
    assert(r@[3]@.parts =~= briefing_outline()[3].parts);
    assert(blueprint_views(r@) =~= briefing_outline());
    r
}

fn paper_sections() -> (r: Vec<SectionBlueprint>)
    ensures
        blueprint_views(r@) == paper_outline(),
{
    let r = vec![
        section_blueprint(
            "Abstract",
            "Summarize the topic, aim, approach, key findings, and overall implication in a journal-style abstract.",
            320,
            "Citations are optional; keep the abstract clean and concise.",
            1,
            vec![
                section_part(
                    "Study framing",
                    "Condense the topic, objective, and analytical approach into compact journal-style prose.",
                    160,
                    0,
                ),
                section_part(
                    "Findings and implication",
                    "Summarize the main finding and broader implication in a polished closing movement.",
                    160,
                    1,
                ),
            ],
        ),
        section_blueprint(
            "Introduction",
            "Establish the broader context, narrow to the specific problem, define the aim, and articulate the paper's significance.",
            1_700,
            "Use citations to situate the topic and justify the problem statement.",
            3,
            vec![
                section_part(
                    "Context and trendline",
                    "Establish the broader background, current relevance, and major developments shaping the topic.",
                    450,
                    1,
                ),
                section_part(
                    "Problem statement",
                    "Narrow from general context to the concrete problem, tension, or opportunity the paper addresses.",
                    450,
                    1,
                ),
                section_part(
                    "Objectives and questions",
                    "Explain the aim of the paper and connect it to the key research questions guiding the study.",
                    400,
                    1,
                ),
                section_part(
                    "Significance and structure",
                    "Clarify the significance of the paper and set up the argumentative path of the remaining sections.",
                    400,
                    0,
                ),
            ],
        ),
        section_blueprint(
            "Literature Review",
            "Critically synthesize the evidence, compare viewpoints, identify patterns, tensions, and gaps, and build the conceptual foundation for the paper.",
            2_600,
            "This section should carry the heaviest citation load and read as analysis rather than a list of summaries.",
            5,
            vec![
                section_part(
                    "Conceptual foundations",
                    "Explain the key concepts, definitions, and theoretical framing that recur across the literature.",
                    650,
                    1,
                ),
                section_part(
                    "Empirical patterns",
                    "Synthesize the strongest empirical findings and show where scholars broadly converge.",
                    650,
                    2,
                ),
                section_part(
                    "Debates and tensions",
                    "Compare competing interpretations, contradictions, or unresolved tensions in the literature.",
                    650,
                    1,
                ),
                section_part(
                    "Gaps and synthesis",
                    "Identify gaps, limits, and unanswered questions, then show how they justify the paper's analytical direction.",
                    650,
                    1,
                ),
            ],
        ),
        section_blueprint(
            "Methodology",
            "Explain the research design as a defensible literature-driven or conceptual study, including source selection, analytical lens, and limitations.",
            1_350,
            "Use a few citations where methodological framing benefits from them.",
            2,
            vec![
                section_part(
                    "Research design",
                    "Describe the overall design and justify why it fits the topic and available evidence.",
                    350,
                    1,
                ),
                section_part(
                    "Source selection",
                    "Explain how sources were identified, screened, and used in the paper.",
                    350,
                    1,
                ),
                section_part(
                    "Analytical procedure",
                    "Describe the thematic, comparative, or interpretive logic used to analyze the evidence.",
                    325,
                    0,
                ),
                section_part(
                    "Limitations",
                    "State the design's limitations and the implications those limits have for interpretation.",
                    325,
                    0,
                ),
            ],
        ),
        section_blueprint(
            "Discussion",
            "Interpret the evidence, connect findings back to the problem, discuss implications, and maintain a strong argumentative thread.",
            3_000,
            "Blend citations with original analytical commentary throughout.",
            5,
            vec![
                section_part(
                    "Operational interpretation",
                    "Analyze how the evidence plays out in practice and what concrete patterns emerge from the literature.",
                    750,
                    1,
                ),
                section_part(
                    "Strategic implications",
                    "Discuss wider organizational, market, or policy implications flowing from the findings.",
                    750,
                    1,
                ),
                section_part(
                    "Risks and constraints",
                    "Explain tradeoffs, implementation barriers, and reasons the issue remains contested or uneven.",
                    750,
                    1,
                ),
                section_part(
                    "Integrated discussion",
                    "Bring the evidence together into a clear argumentative synthesis that answers the research problem.",
                    750,
                    2,
                ),
            ],
        ),
        section_blueprint(
            "Conclusion & Recommendations",
            "Synthesize the argument, state the answer to the research problem, note limitations, and close with grounded recommendations.",
            1_250,
            "Use citations selectively and keep the emphasis on synthesis.",
            2,
            vec![
                section_part(
                    "Argument synthesis",
                    "Restate the central argument and the paper's answer to the research problem in integrated prose.",
                    400,
                    1,
                ),
                section_part(
                    "Practical recommendations",
                    "Present recommendations that follow directly from the analysis and evidence.",
                    350,
                    0,
                ),
                section_part(
                    "Limitations and future inquiry",
                    "Acknowledge key limits and suggest plausible directions for future research or implementation.",
                    250,
                    0,
                ),
                section_part(
                    "Closing reflection",
                    "End with a strong final implication that leaves the paper feeling complete and academically grounded.",
                    250,
                    1,
                ),
            ],
        ),
    ];
    assert(r@[0]@.parts =~= paper_outline()[0].parts);
    assert(r@[1]@.parts =~= paper_outline()[1].parts);
    assert(r@[2]@.parts =~= paper_outline()[2].parts);
    assert(r@[3]@.parts =~= paper_outline()[3].parts);
    assert(r@[4]@.parts =~= paper_outline()[4].parts);
    assert(r@[5]@.parts =~= paper_outline()[5].parts);
    assert(blueprint_views(r@) =~= paper_outline());
    r
}

fn project_sections() -> (r: Vec<SectionBlueprint>)
    ensures
        blueprint_views(r@) == project_outline(),
{
    let r = vec![
        section_blueprint(
            "Abstract",
            "Write a submission-ready abstract that states the problem, objective, approach, major findings, and contribution.",
            350,
            "Avoid overloading the abstract with citations.",
            1,
            vec![
                section_part(
                    "Study overview",
                    "Condense the study focus, objective, and analytical approach into formal abstract prose.",
                    175,
                    0,
                ),
                section_part(
                    "Contribution",
                    "Summarize the main finding, contribution, and practical relevance in a polished close.",
                    175,
                    1,
                ),
            ],
        ),
        section_blueprint(
            "Introduction",
            "Write a full chapter in connected prose covering background, problem statement, objectives, scope, significance, and the study rationale.",
            3_000,
            "Use citations throughout to anchor the background and problem framing.",
            5,
            vec![
                section_part(
                    "Background of the study",
                    "Develop a strong contextual background and explain the broader forces shaping the topic.",
                    700,
                    1,
                ),
                section_part(
                    "Problem statement and rationale",
                    "Define the central research problem and justify why it merits focused investigation.",
                    750,
                    2,
                ),
                section_part(
                    "Objectives, questions, and scope",
                    "Clarify the study objectives, research questions, and scope in sustained prose.",
                    750,
                    1,
                ),
                section_part(
                    "Significance of the study",
                    "Explain the academic and practical significance of the project and transition into the remaining chapters.",
                    800,
                    1,
                ),
            ],
        ),
        section_blueprint(
            "Literature Review",
            "Deliver an intensely academic literature review that organizes major theoretical paradigms, critiques methodological limits, and identifies distinct gaps in the literature.",
            4_800,
            "This chapter must be exceptionally dense with theory and heavily cited.",
            12,
            vec![
                section_part(
                    "Theoretical and conceptual framing",
                    "Establish the dominant theoretical lenses structuring the problem domain.",
                    1_200,
                    3,
                ),
                section_part(
                    "Empirical synthesis and thematic alignment",
                    "Synthesize recurring empirical evidence into coherent academic themes.",
                    1_200,
                    3,
                ),
                section_part(
                    "Scholarly contradictions and epistemological debates",
                    "Rigorously contrast conflicting methodologies and epistemological tensions within the field.",
                    1_200,
                    3,
                ),
                section_part(
                    "Research gaps and structural synthesis",
                    "Expose critical gaps and synthesize how current boundaries necessitate this study.",
                    1_200,
                    3,
                ),
            ],
        ),
        section_blueprint(
            "Methodology",
            "Write a highly robust methodology chapter justifying the epistemological stance, exact research framework, and boundary limitations using rigorous academic conventions.",
            2_200,
            "Anchor methodological choices to established scientific literature.",
            5,
            vec![
                section_part(
                    "Epistemological stance and research design",
                    "Defend the core research philosophy and structural design paradigm.",
                    550,
                    1,
                ),
                section_part(
                    "Source aggregation and sampling parameters",
                    "Define strict parameters for source selection, sampling scope, and inclusion logic.",
                    550,
                    2,
                ),
                section_part(
                    "Analytical processing and synthesis techniques",
                    "Mechanically detail the analytical operations applied to the literature and data.",
                    550,
                    1,
                ),
                section_part(
                    "Validity, triangulation, and study boundaries",
                    "Address methodological rigor, ethical limits, and structural boundaries of the study.",
                    550,
                    1,
                ),
            ],
        ),
        section_blueprint(
            "Discussion",
            "Produce an advanced analytical chapter where raw findings are abstracted into high-level theoretical insights, integrating rigorous academic critique.",
            5_100,
            "Do not merely summarize; abstract findings back up to the theoretical frame.",
            10,
            vec![
                section_part(
                    "Synthesis of primary findings",
                    "Translate raw empirical data into clear vectors of academic discovery.",
                    1_300,
                    2,
                ),
                section_part(
                    "Theoretical significance of discovered patterns",
                    "Examine causal mechanisms and abstract the empirical findings into theoretical domains.",
                    1_300,
                    3,
                ),
                section_part(
                    "Critical implications and disciplinary friction",
                    "Surface profound theoretical contradictions and practical implications confronting the discipline.",
                    1_300,
                    3,
                ),
                section_part(
                    "Integrative chapter synthesis",
                    "Close with a sophisticated macro-synthesis anchoring the discussion back to the original thesis.",
                    1_200,
                    2,
                ),
            ],
        ),
        section_blueprint(
            "Conclusion",
            "Conclude the project by delivering an authoritative, highly condensed final synthesis. Do not introduce new evidence.",
            900,
            "Keep the ending highly concise and intellectually definitive.",
            1,
            vec![
                section_part(
                    "Synthesis of primary conclusions",
                    "A deeply academic synthesis of the primary discoveries, weighing their ultimate theoretical and practical significance.",
                    450,
                    0,
                ),
                section_part(
                    "Strategic recommendations and final reflection",
                    "Actionable recommendations derived from the data, acknowledging constraints, ending with a definitive final academic reflection.",
                    450,
                    1,
                ),
            ],
        ),
    ];
    assert(r@[0]@.parts =~= project_outline()[0].parts);
    assert(r@[1]@.parts =~= project_outline()[1].parts);
    assert(r@[2]@.parts =~= project_outline()[2].parts);
    assert(r@[3]@.parts =~= project_outline()[3].parts);
    assert(r@[4]@.parts =~= project_outline()[4].parts);
    assert(r@[5]@.parts =~= project_outline()[5].parts);
    assert(blueprint_views(r@) =~= project_outline());
    r
}

/// What a report of a tier consists of.
pub fn document_spec_for_tier(tier: &ResearchTier) -> (r: DocumentSpec)
    ensures
        r@ == document_of(*tier),
{
    let section_blueprints = match tier {
        ResearchTier::Preview => briefing_sections(),
        ResearchTier::Starter => paper_sections(),
        ResearchTier::Standard => paper_sections(),
        ResearchTier::Complete => project_sections(),
    };
    let include_source_matrix = match tier {
        ResearchTier::Complete => true,
        _ => false,
    };
    DocumentSpec {
        deliverable: tier.deliverable_name(),
        minimum_words: tier.minimum_word_count(),
        section_blueprints,
        include_source_matrix,
    }
}

// What the reports add up to

pub open spec fn words_of_parts(parts: Seq<PartView>) -> int
    decreases parts.len(),
{
    if parts.len() == 0 {
        0
    } else {
        words_of_parts(parts.drop_last()) + parts.last().target_words
    }
}

pub open spec fn citations_of_parts(parts: Seq<PartView>) -> int
    decreases parts.len(),
{
    if parts.len() == 0 {
        0
    } else {
        citations_of_parts(parts.drop_last()) + parts.last().minimum_citations
    }
}

pub open spec fn words_of_sections(sections: Seq<BlueprintView>) -> int
    decreases sections.len(),
{
    if sections.len() == 0 {
        0
    } else {
        words_of_sections(sections.drop_last()) + sections.last().target_words
    }
}

pub open spec fn citations_of_sections(sections: Seq<BlueprintView>) -> int
    decreases sections.len(),
{
    if sections.len() == 0 {
        0
    } else {
        citations_of_sections(sections.drop_last()) + sections.last().minimum_citations
    }
}

/// The parts of a section add up to its length and to its citations.
pub proof fn law_parts_add_up(tier: ResearchTier, i: int)
    requires
        0 <= i < outline_of(tier).len(),
    ensures
        words_of_parts(outline_of(tier)[i].parts) == outline_of(tier)[i].target_words,
        citations_of_parts(outline_of(tier)[i].parts) == outline_of(tier)[i].minimum_citations,
{
    reveal_with_fuel(words_of_parts, 6);
    reveal_with_fuel(citations_of_parts, 6);
}

/// The sections of a report reach the length and the citations that its tier promises.
pub proof fn law_sections_reach_the_promise(tier: ResearchTier)
    ensures
        words_of_sections(outline_of(tier)) >= tier.least_words(),
        citations_of_sections(outline_of(tier)) >= tier.citations(),
{
    reveal_with_fuel(words_of_sections, 8);
    reveal_with_fuel(citations_of_sections, 8);
}

// Lengths and budgets

/// The number of words below which a section is refused.
pub open spec fn section_floor(target_words: int) -> int {
    target_words * 20 / 100
}

/// The number of words below which a part of a section is refused.
pub open spec fn part_floor(target_words: int) -> int {
    target_words * 30 / 100
}

/// Whether the floors of a section and of its parts can be computed.
pub open spec fn is_sized(section: BlueprintView) -> bool {
    &&& section.target_words * SECTION_WORD_FLOOR_PERCENT <= usize::MAX
    &&& forall|i: int|
        0 <= i < section.parts.len() ==> (#[trigger] section.parts[i]).target_words
            * SECTION_PART_WORD_FLOOR_PERCENT <= usize::MAX
}

/// Whether the floors of every section of a report can be computed.
pub open spec fn all_sized(sections: Seq<BlueprintView>) -> bool {
    forall|i: int| 0 <= i < sections.len() ==> is_sized(#[trigger] sections[i])
}

/// The floors of the report of every tier can be computed.
pub proof fn law_tiers_are_sized(tier: ResearchTier)
    ensures
        all_sized(outline_of(tier)),
        tier.least_words() * SECTION_WORD_FLOOR_PERCENT <= usize::MAX,
{
}

/// The number of words below which a section is refused.
pub fn minimum_words_for_section(blueprint: &SectionBlueprint) -> (r: usize)
    requires
        blueprint.target_words * SECTION_WORD_FLOOR_PERCENT <= usize::MAX,
    ensures
        r == section_floor(blueprint@.target_words),
{
    (blueprint.target_words * SECTION_WORD_FLOOR_PERCENT) / 100
}

/// The number of words below which a part of a section is refused.
pub fn minimum_words_for_section_part(blueprint: &SectionPartBlueprint) -> (r: usize)
    requires
        blueprint.target_words * SECTION_PART_WORD_FLOOR_PERCENT <= usize::MAX,
    ensures
        r == part_floor(blueprint@.target_words),
{
    (blueprint.target_words * SECTION_PART_WORD_FLOOR_PERCENT) / 100
}

/// The number of tokens that a section may take: two for each word, but no more than 8192.
pub open spec fn section_tokens(target_words: int) -> int {
    if target_words * 2 <= 8_192 {
        target_words * 2
    } else {
        8_192
    }
}

/// The number of tokens that a part may take: two for each word, but from 768 to 4096.
pub open spec fn part_tokens(target_words: int) -> int {
    if target_words * 2 <= 768 {
        768
    } else if target_words * 2 <= 4_096 {
        target_words * 2
    } else {
        4_096
    }
}

/// The number of tokens that a section may take.
pub fn section_token_budget(blueprint: &SectionBlueprint) -> (r: u32)
    ensures
        r == section_tokens(blueprint@.target_words),
{
    if blueprint.target_words <= 4_096 {
        (blueprint.target_words * 2) as u32
    } else {
        8_192
    }
}

/// The number of tokens that a part of a section may take.
pub fn section_part_token_budget(blueprint: &SectionPartBlueprint) -> (r: u32)
    ensures
        r == part_tokens(blueprint@.target_words),
{
    if blueprint.target_words <= 384 {
        768
    } else if blueprint.target_words <= 2_048 {
        (blueprint.target_words * 2) as u32
    } else {
        4_096
    }
}

// The order of sections

/// Summaries are written last, when the rest of the report is there.
pub open spec fn is_deferred(heading: Seq<char>) -> bool {
    heading == "Abstract"@ || heading == "Executive Summary"@
}

/// Whether a section is written after all others.
pub fn should_defer_section_generation(heading: &str) -> (r: bool)
    ensures
        r == is_deferred(heading@),
{
    text::same(heading, "Abstract") || text::same(heading, "Executive Summary")
}

/// The first section with a heading.
pub open spec fn section_named(list: Seq<SectionView>, heading: Seq<char>) -> Option<SectionView>
    decreases list.len(),
{
    if list.len() == 0 {
        None
    } else if list[0].heading == heading {
        Some(list[0])
    } else {
        section_named(list.skip(1), heading)
    }
}

/// The section for a heading: among those drafted at once, else among those drafted last.
pub open spec fn section_for(
    heading: Seq<char>,
    drafted: Seq<SectionView>,
    deferred: Seq<SectionView>,
) -> Option<SectionView> {
    match section_named(drafted, heading) {
        Some(s) => Some(s),
        None => section_named(deferred, heading),
    }
}

pub open spec fn missing_section(heading: Seq<char>) -> Seq<char> {
    "Section '"@ + heading + "' was missing when assembling the final report order"@
}

/// The sections in the order of the report; the first heading without a section is an error.
pub open spec fn in_order(
    sections: Seq<BlueprintView>,
    drafted: Seq<SectionView>,
    deferred: Seq<SectionView>,
) -> Result<Seq<SectionView>, Seq<char>>
    decreases sections.len(),
{
    if sections.len() == 0 {
        Ok(seq![])
    } else {
        match in_order(sections.drop_last(), drafted, deferred) {
            Err(e) => Err(e),
            Ok(list) => match section_for(sections.last().heading, drafted, deferred) {
                Some(s) => Ok(list.push(s)),
                None => Err(missing_section(sections.last().heading)),
            },
        }
    }
}

/// The first section with a heading.
fn find_section<'a>(list: &'a Vec<ResearchSection>, heading: &str) -> (r: Option<
    &'a ResearchSection,
>)
    ensures
        r is Some <==> section_named(models::section_views(list@), heading@) is Some,
        r matches Some(s) ==> section_named(models::section_views(list@), heading@) == Some(s@),
{
    let ghost all = models::section_views(list@);
    let mut i: usize = 0;
    assert(all.skip(0) == all);
    while i < list.len()
        invariant
            i <= list@.len(),
            all == models::section_views(list@),
            section_named(all, heading@) == section_named(all.skip(i as int), heading@),
        decreases list@.len() - i,
    {
        assert(all.skip(i as int)[0] == list@[i as int]@);
        if text::same(list[i].heading.as_str(), heading) {
            return Some(&list[i]);
        }
        assert(all.skip(i as int).skip(1) == all.skip(i + 1));
        i += 1;
    }
    None
}

/// Puts the drafted sections into the order of the report.
pub fn assemble_sections_in_spec_order(
    spec: &DocumentSpec,
    drafted_sections: &Vec<ResearchSection>,
    deferred_sections: &Vec<ResearchSection>,
) -> (r: Result<Vec<ResearchSection>, String>)
    ensures
        ({
            let expected = in_order(
                spec@.sections,
                models::section_views(drafted_sections@),
                models::section_views(deferred_sections@),
            );
            match r {
                Ok(list) => expected == Ok::<Seq<SectionView>, Seq<char>>(
                    models::section_views(list@),
                ),
                Err(e) => expected == Err::<Seq<SectionView>, Seq<char>>(e@),
            }
        }),
{
    let ghost all = spec@.sections;
    let ghost drafted = models::section_views(drafted_sections@);
    let ghost deferred = models::section_views(deferred_sections@);
    let mut ordered: Vec<ResearchSection> = Vec::new();
    let mut i: usize = 0;
    assert(models::section_views(ordered@) =~= seq![]);
    assert(in_order(all.take(0), drafted, deferred) == Ok::<Seq<SectionView>, Seq<char>>(seq![]));
    while i < spec.section_blueprints.len()
        invariant
            i <= spec.section_blueprints@.len(),
            all == spec@.sections,
            drafted == models::section_views(drafted_sections@),
            deferred == models::section_views(deferred_sections@),
            in_order(all.take(i as int), drafted, deferred) == Ok::<Seq<SectionView>, Seq<char>>(
                models::section_views(ordered@),
            ),
        decreases spec.section_blueprints@.len() - i,
    {
        assert(all.take(i + 1).drop_last() == all.take(i as int));
        let heading = spec.section_blueprints[i].heading;
        assert(all.take(i + 1).last().heading == heading@);
        let found = match find_section(drafted_sections, heading) {
            Some(s) => Some(s),
            None => find_section(deferred_sections, heading),
        };
        match found {
            Some(s) => {
                ordered.push(s.clone());
            },
            None => {
                let mut message = text::copy("Section '");
                message.append(heading);
                message.append("' was missing when assembling the final report order");
                proof {
                    lemma_missing_stays(all, drafted, deferred, i + 1);
                }
                return Err(message);
            },
        }
        i += 1;
    }
    assert(all.take(i as int) == all);
    Ok(ordered)
}

/// A heading without a section stays an error whatever follows it.
proof fn lemma_missing_stays(
    sections: Seq<BlueprintView>,
    drafted: Seq<SectionView>,
    deferred: Seq<SectionView>,
    n: int,
)
    requires
        0 <= n <= sections.len(),
        in_order(sections.take(n), drafted, deferred) is Err,
    ensures
        in_order(sections, drafted, deferred) == in_order(sections.take(n), drafted, deferred),
    decreases sections.len(),
{
    if n < sections.len() {
        assert(sections.drop_last().take(n) == sections.take(n));
        lemma_missing_stays(sections.drop_last(), drafted, deferred, n);
    } else {
        assert(sections.take(n) == sections);
    }
}

proof fn lemma_section_named(list: Seq<SectionView>, heading: Seq<char>)
    ensures
        section_named(list, heading) matches Some(s) ==> s.heading == heading && list.contains(s),
        section_named(list, heading) is None ==> forall|i: int|
            0 <= i < list.len() ==> (#[trigger] list[i]).heading != heading,
    decreases list.len(),
{
    if list.len() > 0 {
        if list[0].heading == heading {
            assert(list.contains(list[0]));
        } else {
            lemma_section_named(list.skip(1), heading);
            match section_named(list.skip(1), heading) {
                Some(s) => {
                    let i = choose|i: int| 0 <= i < list.skip(1).len() && list.skip(1)[i] == s;
                    assert(list[i + 1] == s);
                },
                None => {
                    assert forall|i: int| 0 <= i < list.len() implies (
                    #[trigger] list[i]).heading != heading by {
                        if i > 0 {
                            assert(list.skip(1)[i - 1] == list[i]);
                        }
                    }
                },
            }
        }
    }
}

/// The assembled sections are those of the report, one for each heading and in its order, each of
/// them one that was drafted; there is an error only where a heading was not drafted.
pub proof fn law_order(
    sections: Seq<BlueprintView>,
    drafted: Seq<SectionView>,
    deferred: Seq<SectionView>,
)
    ensures
        in_order(sections, drafted, deferred) matches Ok(list) ==> list.len() == sections.len()
            && forall|i: int|
            0 <= i < list.len() ==> (#[trigger] list[i]).heading == sections[i].heading && (
            drafted.contains(list[i]) || deferred.contains(list[i])),
        in_order(sections, drafted, deferred) is Err <==> exists|i: int|
            0 <= i < sections.len() && section_for(
                (#[trigger] sections[i]).heading,
                drafted,
                deferred,
            ) is None,
    decreases sections.len(),
{
    if sections.len() > 0 {
        let front = sections.drop_last();
        law_order(front, drafted, deferred);
        lemma_section_named(drafted, sections.last().heading);
        lemma_section_named(deferred, sections.last().heading);
        match in_order(front, drafted, deferred) {
            Err(e) => {
                let i = choose|i: int|
                    0 <= i < front.len() && section_for(
                        (#[trigger] front[i]).heading,
                        drafted,
                        deferred,
                    ) is None;
                assert(sections[i] == front[i]);
            },
            Ok(list) => {
                assert forall|i: int| 0 <= i < front.len() implies section_for(
                    (#[trigger] sections[i]).heading,
                    drafted,
                    deferred,
                ) is Some by {
                    assert(front[i] == sections[i]);
                }
                match section_for(sections.last().heading, drafted, deferred) {
                    Some(s) => {
                        assert forall|i: int| 0 <= i < list.push(s).len() implies (
                        #[trigger] list.push(s)[i]).heading == sections[i].heading && (
                        drafted.contains(list.push(s)[i]) || deferred.contains(list.push(s)[i])) by {
                            if i < list.len() {
                                assert(list.push(s)[i] == list[i]);
                                assert(front[i] == sections[i]);
                            }
                        }
                    },
                    None => {
                        assert(section_for(
                            sections[sections.len() - 1].heading,
                            drafted,
                            deferred,
                        ) is None);
                    },
                }
            },
        }
    }
}

} // verus!
