//! Documents: a report holds its sections in their order, and what is made of sources holds every
//! source.

use crate::bytes;
use crate::excerpt;
use crate::laws::finding;
use crate::models::{ReferenceStyle, SectionView, SourceView};
use crate::numbers;
use crate::pieces;
use crate::rendering;
use crate::rendering::ReportContextView;
use crate::sections;
use crate::sources;
use crate::text;
use crate::trim;
use vstd::prelude::*;

verus! {

broadcast use finding::group_holds;

/// A label and what it names, put behind a text.
proof fn lemma_order_label(
    t: Seq<char>,
    parts: Seq<Seq<char>>,
    label: Seq<char>,
    value: Seq<char>,
)
    requires
        finding::stand_in_order(t, parts),
    ensures
        finding::stand_in_order(t + label + value, parts.push(label + value)),
{
    finding::lemma_order_push(t, parts, label + value);
    assert(t + (label + value) =~= t + label + value);
}

/// What stands in the blocks of a list stands in the joined text, block by block.
proof fn lemma_order_of_blocks(blocks: Seq<Seq<char>>, sep: Seq<char>, inner: Seq<Seq<char>>)
    requires
        inner.len() == blocks.len(),
        forall|i: int| 0 <= i < blocks.len() ==> text::contains(#[trigger] blocks[i], inner[i]),
    ensures
        finding::stand_in_order(pieces::join(blocks, sep), inner),
{
    finding::lemma_order_of_join(blocks, sep);
    finding::lemma_order_inside(pieces::join(blocks, sep), blocks, inner);
}

// The report

/// The data that a report shows above its sections, each behind its label.
pub open spec fn shown_data(c: ReportContextView) -> Seq<Seq<char>> {
    seq![
        "# "@ + trim::trim(c.plan.title),
        "Topic: "@ + trim::trim(c.topic),
        "Deliverable: "@ + c.spec.deliverable,
        "Tier: "@ + c.tier.name(),
        "Reference style: "@ + c.reference_style.name(),
        "Citation target: "@ + numbers::decimal(c.tier.citations() as nat),
        "Keywords: "@ + pieces::join(c.plan.keywords, ", "@),
    ]
}

/// What stands above the sections of a report.
spec fn head(c: ReportContextView) -> Seq<char> {
    "# "@ + trim::trim(c.plan.title) + "\n\n"@ + "Topic: "@ + trim::trim(c.topic) + "\n"@
        + "Deliverable: "@ + c.spec.deliverable + "\n"@ + "Tier: "@ + c.tier.name() + "\n"@
        + "Reference style: "@ + c.reference_style.name() + "\n"@ + "Citation target: "@
        + numbers::decimal(c.tier.citations() as nat) + "\n"@ + "Keywords: "@ + pieces::join(
        c.plan.keywords,
        ", "@,
    ) + "\n\n"@
}

/// What stands below the sections of a report.
spec fn tail(c: ReportContextView, references: Seq<char>) -> Seq<char> {
    trim::trim(references) + (if c.spec.include_source_matrix && c.sources.len() > 0 {
        "\n\n"@ + rendering::source_matrix(c.sources)
    } else {
        "\n"@
    })
}

proof fn lemma_report_text(c: ReportContextView, list: Seq<SectionView>, references: Seq<char>)
    ensures
        rendering::report_text(c, list, references) == head(c) + pieces::join(
            rendering::section_blocks(list),
            ""@,
        ) + tail(c, references),
{
    reveal_strlit("\n\n");
    reveal_strlit("\n");
    assert("\n\n"@ =~= "\n"@ + "\n"@);
    assert(rendering::report_text(c, list, references) =~= head(c) + pieces::join(
        rendering::section_blocks(list),
        ""@,
    ) + tail(c, references));
}

#[verifier::rlimit(40)]
proof fn lemma_head(c: ReportContextView)
    ensures
        finding::stand_in_order(head(c), shown_data(c)),
        ("# "@ + trim::trim(c.plan.title)).is_prefix_of(head(c)),
{
    let a0 = "# "@ + trim::trim(c.plan.title);
    finding::lemma_one_in_order(a0, a0);
    let p0 = seq![a0];
    let a1 = a0 + "\n\n"@;
    finding::lemma_order_grows(a0, p0, "\n\n"@);
    lemma_order_label(a1, p0, "Topic: "@, trim::trim(c.topic));
    let a2 = a1 + "Topic: "@ + trim::trim(c.topic);
    let p1 = p0.push("Topic: "@ + trim::trim(c.topic));
    finding::lemma_order_grows(a2, p1, "\n"@);
    let a3 = a2 + "\n"@;
    lemma_order_label(a3, p1, "Deliverable: "@, c.spec.deliverable);
    let a4 = a3 + "Deliverable: "@ + c.spec.deliverable;
    let p2 = p1.push("Deliverable: "@ + c.spec.deliverable);
    finding::lemma_order_grows(a4, p2, "\n"@);
    let a5 = a4 + "\n"@;
    lemma_order_label(a5, p2, "Tier: "@, c.tier.name());
    let a6 = a5 + "Tier: "@ + c.tier.name();
    let p3 = p2.push("Tier: "@ + c.tier.name());
    finding::lemma_order_grows(a6, p3, "\n"@);
    let a7 = a6 + "\n"@;
    lemma_order_label(a7, p3, "Reference style: "@, c.reference_style.name());
    let a8 = a7 + "Reference style: "@ + c.reference_style.name();
    let p4 = p3.push("Reference style: "@ + c.reference_style.name());
    finding::lemma_order_grows(a8, p4, "\n"@);
    let a9 = a8 + "\n"@;
    let target = numbers::decimal(c.tier.citations() as nat);
    lemma_order_label(a9, p4, "Citation target: "@, target);
    let a10 = a9 + "Citation target: "@ + target;
    let p5 = p4.push("Citation target: "@ + target);
    finding::lemma_order_grows(a10, p5, "\n"@);
    let a11 = a10 + "\n"@;
    let keywords = pieces::join(c.plan.keywords, ", "@);
    lemma_order_label(a11, p5, "Keywords: "@, keywords);
    let a12 = a11 + "Keywords: "@ + keywords;
    let p6 = p5.push("Keywords: "@ + keywords);
    finding::lemma_order_grows(a12, p6, "\n\n"@);
    assert(p6 =~= shown_data(c));
    assert(head(c).subrange(0, a0.len() as int) =~= a0);
}

/// A report begins with its title; then come its data, its sections in the order of the list, the
/// references and, where the report has one and there are sources, the appendix. None of them
/// reaches into another.
#[verifier::rlimit(40)]
pub proof fn law_reports_hold_their_sections_in_order(
    c: ReportContextView,
    list: Seq<SectionView>,
    references: Seq<char>,
)
    ensures
        ({
            let t = rendering::report_text(c, list, references);
            let contents = Seq::new(list.len(), |i: int| trim::trim(list[i].content));
            &&& ("# "@ + trim::trim(c.plan.title)).is_prefix_of(t)
            &&& finding::stand_in_order(
                t,
                shown_data(c) + contents + seq![trim::trim(references)] + (
                if c.spec.include_source_matrix && c.sources.len() > 0 {
                    seq![rendering::source_matrix(c.sources)]
                } else {
                    seq![]
                }),
            )
        }),
{
    let t = rendering::report_text(c, list, references);
    let contents = Seq::new(list.len(), |i: int| trim::trim(list[i].content));
    let blocks = rendering::section_blocks(list);
    let body = pieces::join(blocks, ""@);
    lemma_report_text(c, list, references);
    lemma_head(c);
    assert forall|i: int| 0 <= i < blocks.len() implies text::contains(
        #[trigger] blocks[i],
        contents[i],
    ) by {
        finding::lemma_holds_front(trim::trim(list[i].content), "\n\n"@, contents[i]);
    }
    lemma_order_of_blocks(blocks, ""@, contents);
    finding::lemma_order_concat(head(c), shown_data(c), body, contents);
    let refs = trim::trim(references);
    finding::lemma_one_in_order(refs, refs);
    let last = if c.spec.include_source_matrix && c.sources.len() > 0 {
        seq![rendering::source_matrix(c.sources)]
    } else {
        Seq::<Seq<char>>::empty()
    };
    let appendix = if c.spec.include_source_matrix && c.sources.len() > 0 {
        "\n\n"@ + rendering::source_matrix(c.sources)
    } else {
        "\n"@
    };
    if c.spec.include_source_matrix && c.sources.len() > 0 {
        finding::lemma_one_in_order(appendix, rendering::source_matrix(c.sources));
    } else {
        finding::lemma_none_in_order(appendix);
    }
    finding::lemma_order_concat(refs, seq![refs], appendix, last);
    finding::lemma_order_concat(
        head(c) + body,
        shown_data(c) + contents,
        tail(c, references),
        seq![refs] + last,
    );
    assert(shown_data(c) + contents + (seq![refs] + last) =~= shown_data(c) + contents + seq![refs]
        + last);
    let title = "# "@ + trim::trim(c.plan.title);
    assert(t.subrange(0, title.len() as int) =~= head(c).subrange(0, title.len() as int));
}

/// One more section comes directly before the references, with a blank line behind it, and changes
/// nothing else.
pub proof fn law_one_more_section(
    c: ReportContextView,
    list: Seq<SectionView>,
    s: SectionView,
    references: Seq<char>,
)
    ensures
        exists|above: Seq<char>, below: Seq<char>|
            rendering::report_text(c, list, references) == above + below
                && rendering::report_text(c, list.push(s), references) == #[trigger] (above
                + trim::trim(s.content) + "\n\n"@ + below) && trim::trim(references).is_prefix_of(
                below,
            ) && (c.sources.len() == 0 || !c.spec.include_source_matrix ==> below == trim::trim(
                references,
            ) + "\n"@),
{
    lemma_report_text(c, list, references);
    lemma_report_text(c, list.push(s), references);
    let blocks = rendering::section_blocks(list);
    let block = trim::trim(s.content) + "\n\n"@;
    assert(rendering::section_blocks(list.push(s)) =~= blocks.push(block));
    pieces::lemma_join_push(blocks, ""@, block);
    reveal_strlit("");
    let body = pieces::join(blocks, ""@);
    let longer = pieces::join(blocks.push(block), ""@);
    if list.len() == 0 {
        assert(body =~= seq![]);
    }
    assert(longer =~= body + block);
    let above = head(c) + body;
    let below = tail(c, references);
    assert(head(c) + longer + below =~= above + trim::trim(s.content) + "\n\n"@ + below);
    let refs = trim::trim(references);
    assert(below.subrange(0, refs.len() as int) =~= refs);
}

// Sources

/// The dossier names every source in order: first the keys, then each source with its key, its
/// title, its address, its year and what it says.
#[verifier::rlimit(40)]
pub proof fn law_dossiers_hold_every_source(list: Seq<SourceView>)
    requires
        list.len() > 0,
    ensures
        ({
            let t = rendering::dossier(list);
            &&& finding::stand_in_order(
                t,
                Seq::new(list.len(), |i: int| "] ("@ + rendering::citation_key(list[i])) + Seq::new(
                    list.len(),
                    |i: int|
                        "cite as ("@ + rendering::citation_key(list[i]) + ")\nTitle: "@
                            + list[i].title,
                ),
            )
            &&& finding::stand_in_order(
                t,
                Seq::new(list.len(), |i: int| "\nTitle: "@ + list[i].title),
            )
            &&& finding::stand_in_order(
                t,
                Seq::new(list.len(), |i: int| "\nURL: "@ + list[i].url),
            )
            &&& finding::stand_in_order(
                t,
                Seq::new(
                    list.len(),
                    |i: int| "\nYear: "@ + sources::year_label(list[i].year_hint),
                ),
            )
            &&& finding::stand_in_order(
                t,
                Seq::new(list.len(), |i: int| "\nEvidence summary: "@ + list[i].summary),
            )
        }),
{
    let keys = rendering::key_lines(list);
    let entries = rendering::evidence_entries(list);
    let k = pieces::join(keys, ""@);
    let e = pieces::join(entries, ""@);
    let rules = "CITATION RULES (non-negotiable):\n\
        - You MUST cite sources using ONLY the citation keys listed below.\n\
        - Do NOT invent author names, years, or citation labels not listed here.\n\
        - If a source does not have a clear author, use the provided key exactly as written.\n\
        - Format every in-text citation exactly as shown in the key, e.g. (National Institutes of Health, 2021).\n\n"@
        + "AVAILABLE CITATION KEYS (use these verbatim in your prose):\n"@;
    let above = rules + k + "\n"@ + "SOURCE EVIDENCE DOSSIER:\n"@;
    assert(rendering::dossier(list) == above + e);
    let named = Seq::new(list.len(), |i: int| "] ("@ + rendering::citation_key(list[i]));
    let cited = Seq::new(
        list.len(),
        |i: int| "cite as ("@ + rendering::citation_key(list[i]) + ")\nTitle: "@ + list[i].title,
    );
    let titles = Seq::new(list.len(), |i: int| "\nTitle: "@ + list[i].title);
    let urls = Seq::new(list.len(), |i: int| "\nURL: "@ + list[i].url);
    let years = Seq::new(
        list.len(),
        |i: int| "\nYear: "@ + sources::year_label(list[i].year_hint),
    );
    let summaries = Seq::new(list.len(), |i: int| "\nEvidence summary: "@ + list[i].summary);
    assert forall|i: int| 0 <= i < list.len() implies text::contains(
        #[trigger] keys[i],
        named[i],
    ) by {
        assert(text::contains(rendering::key_line(i, list[i]), named[i]));
    }
    assert forall|i: int| 0 <= i < list.len() implies text::contains(
        #[trigger] entries[i],
        titles[i],
    ) by {
        lemma_entry(i, list[i]);
    }
    assert forall|i: int| 0 <= i < list.len() implies text::contains(
        #[trigger] entries[i],
        cited[i],
    ) by {
        lemma_entry(i, list[i]);
    }
    assert forall|i: int| 0 <= i < list.len() implies text::contains(
        #[trigger] entries[i],
        urls[i],
    ) by {
        lemma_entry(i, list[i]);
    }
    assert forall|i: int| 0 <= i < list.len() implies text::contains(
        #[trigger] entries[i],
        years[i],
    ) by {
        lemma_entry(i, list[i]);
    }
    assert forall|i: int| 0 <= i < list.len() implies text::contains(
        #[trigger] entries[i],
        summaries[i],
    ) by {
        lemma_entry(i, list[i]);
    }
    lemma_order_of_blocks(keys, ""@, named);
    lemma_order_of_blocks(entries, ""@, cited);
    lemma_order_of_blocks(entries, ""@, titles);
    lemma_order_of_blocks(entries, ""@, urls);
    lemma_order_of_blocks(entries, ""@, years);
    lemma_order_of_blocks(entries, ""@, summaries);
    finding::lemma_order_shifts(rules, k, named);
    finding::lemma_order_grows(rules + k, named, "\n"@);
    finding::lemma_order_grows(rules + k + "\n"@, named, "SOURCE EVIDENCE DOSSIER:\n"@);
    finding::lemma_order_concat(above, named, e, cited);
    finding::lemma_order_shifts(above, e, titles);
    finding::lemma_order_shifts(above, e, urls);
    finding::lemma_order_shifts(above, e, years);
    finding::lemma_order_shifts(above, e, summaries);
}

#[verifier::rlimit(40)]
proof fn lemma_entry(i: int, s: SourceView)
    ensures
        ({
            let t = rendering::evidence_entry(i, s);
            &&& text::contains(
                t,
                "cite as ("@ + rendering::citation_key(s) + ")\nTitle: "@ + s.title,
            )
            &&& text::contains(t, "\nTitle: "@ + s.title)
            &&& text::contains(t, "\nURL: "@ + s.url)
            &&& text::contains(t, "\nYear: "@ + sources::year_label(s.year_hint))
            &&& text::contains(t, "\nEvidence summary: "@ + s.summary)
        }),
{
    reveal_strlit(" — cite as (");
    reveal_strlit("cite as (");
    reveal_strlit(")\nTitle: ");
    reveal_strlit("\nTitle: ");
    reveal_strlit(" — ");
    reveal_strlit(")");
    assert(" — cite as ("@ =~= " — "@ + "cite as ("@);
    assert(")\nTitle: "@ =~= ")"@ + "\nTitle: "@);
    let key = rendering::citation_key(s);
    let url = rendering::or_else(s.url, "N/A"@);
    let a = "Source "@ + rendering::ordinal(i);
    let cited = "cite as ("@ + key + ")\nTitle: "@ + s.title;
    let rest = "\nURL: "@ + url + "\nYear: "@ + sources::year_label(s.year_hint)
        + "\nEvidence summary: "@ + s.summary + "\n\n"@;
    let t = rendering::evidence_entry(i, s);
    assert(t =~= (a + " — "@) + cited + rest);
    assert(cited =~= ("cite as ("@ + key + ")"@) + ("\nTitle: "@ + s.title));
    assert(text::contains(t, cited));
    finding::lemma_holds_back("cite as ("@ + key + ")"@, "\nTitle: "@ + s.title, "\nTitle: "@ + s.title);
    finding::lemma_holds_through(t, cited, "\nTitle: "@ + s.title);
    assert(text::contains(t, "\nURL: "@ + url));
    if s.url.len() == 0 {
        assert("\nURL: "@ + s.url =~= "\nURL: "@);
        finding::lemma_holds_front("\nURL: "@, url, "\nURL: "@);
        finding::lemma_holds_through(t, "\nURL: "@ + url, "\nURL: "@);
    }
}

/// The appendix names every source in order: its title, its kind, its address, what it says, and how
/// it is cited.
pub proof fn law_appendices_hold_every_source(list: Seq<SourceView>)
    ensures
        ({
            let t = rendering::source_matrix(list);
            &&& "## Appendix A - Source Matrix"@.is_prefix_of(t)
            &&& finding::stand_in_order(t, Seq::new(list.len(), |i: int| ": "@ + list[i].title))
            &&& finding::stand_in_order(
                t,
                Seq::new(list.len(), |i: int| "\nType: "@ + list[i].source_type),
            )
            &&& finding::stand_in_order(
                t,
                Seq::new(list.len(), |i: int| "\nLocator: "@ + list[i].url),
            )
            &&& finding::stand_in_order(
                t,
                Seq::new(list.len(), |i: int| "\nEvidence note: "@ + list[i].summary),
            )
            &&& finding::stand_in_order(
                t,
                Seq::new(
                    list.len(),
                    |i: int| "\nSuggested citation: "@ + rendering::citation_key(list[i]),
                ),
            )
        }),
{
    let head = "## Appendix A - Source Matrix\n\n"@;
    let entries = rendering::matrix_entries(list);
    let e = pieces::join(entries, ""@);
    let titles = Seq::new(list.len(), |i: int| ": "@ + list[i].title);
    let kinds = Seq::new(list.len(), |i: int| "\nType: "@ + list[i].source_type);
    let urls = Seq::new(list.len(), |i: int| "\nLocator: "@ + list[i].url);
    let notes = Seq::new(list.len(), |i: int| "\nEvidence note: "@ + list[i].summary);
    let keys = Seq::new(
        list.len(),
        |i: int| "\nSuggested citation: "@ + rendering::citation_key(list[i]),
    );
    assert forall|i: int| 0 <= i < list.len() implies text::contains(
        #[trigger] entries[i],
        titles[i],
    ) by {
        lemma_matrix_entry(i, list[i]);
    }
    assert forall|i: int| 0 <= i < list.len() implies text::contains(
        #[trigger] entries[i],
        kinds[i],
    ) by {
        lemma_matrix_entry(i, list[i]);
    }
    assert forall|i: int| 0 <= i < list.len() implies text::contains(
        #[trigger] entries[i],
        urls[i],
    ) by {
        lemma_matrix_entry(i, list[i]);
    }
    assert forall|i: int| 0 <= i < list.len() implies text::contains(
        #[trigger] entries[i],
        notes[i],
    ) by {
        lemma_matrix_entry(i, list[i]);
    }
    assert forall|i: int| 0 <= i < list.len() implies text::contains(
        #[trigger] entries[i],
        keys[i],
    ) by {
        lemma_matrix_entry(i, list[i]);
    }
    lemma_order_of_blocks(entries, ""@, titles);
    lemma_order_of_blocks(entries, ""@, kinds);
    lemma_order_of_blocks(entries, ""@, urls);
    lemma_order_of_blocks(entries, ""@, notes);
    lemma_order_of_blocks(entries, ""@, keys);
    finding::lemma_order_shifts(head, e, titles);
    finding::lemma_order_shifts(head, e, kinds);
    finding::lemma_order_shifts(head, e, urls);
    finding::lemma_order_shifts(head, e, notes);
    finding::lemma_order_shifts(head, e, keys);
    reveal_strlit("## Appendix A - Source Matrix\n\n");
    reveal_strlit("## Appendix A - Source Matrix");
    let h = "## Appendix A - Source Matrix"@;
    assert(rendering::source_matrix(list).subrange(0, h.len() as int) =~= h);
}

#[verifier::rlimit(40)]
proof fn lemma_matrix_entry(i: int, s: SourceView)
    ensures
        ({
            let t = rendering::matrix_entry(i, s);
            &&& text::contains(t, ": "@ + s.title)
            &&& text::contains(t, "\nType: "@ + s.source_type)
            &&& text::contains(t, "\nLocator: "@ + s.url)
            &&& text::contains(t, "\nEvidence note: "@ + s.summary)
            &&& text::contains(t, "\nSuggested citation: "@ + rendering::citation_key(s))
        }),
{
    reveal_strlit(")\nType: ");
    reveal_strlit("\nType: ");
    reveal_strlit(")");
    let url = rendering::or_else(s.url, "No URL captured"@);
    let t = rendering::matrix_entry(i, s);
    let above = "Material "@ + rendering::ordinal(i) + ": "@ + s.title + " ("@
        + sources::year_label(s.year_hint);
    assert(")\nType: "@ =~= ")"@ + "\nType: "@);
    let kind = "\nType: "@ + s.source_type;
    let rest = "\nLocator: "@ + url + "\nEvidence note: "@ + s.summary
        + "\nSuggested citation: "@ + rendering::citation_key(s) + "\n\n"@;
    assert(t =~= (above + ")"@) + kind + rest);
    assert(text::contains(t, "\nLocator: "@ + url));
    if s.url.len() == 0 {
        assert("\nLocator: "@ + s.url =~= "\nLocator: "@);
        finding::lemma_holds_front("\nLocator: "@, url, "\nLocator: "@);
        finding::lemma_holds_through(t, "\nLocator: "@ + url, "\nLocator: "@);
    }
}

/// A bibliography without a model stands under the heading of its style and holds what each source
/// suggests, in order.
pub proof fn law_plain_references_hold_every_source(list: Seq<SourceView>, style: ReferenceStyle)
    ensures
        sections::heading_line(style.heading()).is_prefix_of(
            rendering::plain_references(list, style),
        ),
        (forall|i: int|
            0 <= i < list.len() ==> trim::is_trimmed((#[trigger] list[i]).citation_hint)
                && list[i].citation_hint.len() > 0) ==> finding::stand_in_order(
            rendering::plain_references(list, style),
            Seq::new(list.len(), |i: int| list[i].citation_hint),
        ),
{
    let heading = "## "@ + style.heading() + "\n\n"@;
    let h = sections::heading_line(style.heading());
    let r = rendering::plain_references(list, style);
    reveal_strlit("\n\n");
    reveal_strlit("## ");
    reveal_strlit("\n");
    if list.len() == 0 {
        assert(r.subrange(0, h.len() as int) =~= h);
        finding::lemma_none_in_order(r);
        assert(Seq::new(list.len(), |i: int| list[i].citation_hint) =~= Seq::empty());
    } else {
        let lines = rendering::reference_lines(list);
        let body = pieces::join(lines, ""@);
        let whole = heading + body;
        trim::lemma_trim_end(whole);
        lemma_style_heading(style);
        // The heading ends in a letter, so that trimming cannot reach it.
        let k = h.len() - 1;
        assert(whole[k] == style.heading().last());
        assert(r.len() >= h.len()) by {
            if r.len() < h.len() {
                assert(chars_white_from(whole, r.len() as int));
                assert(crate::chars::is_white(whole[k]));
            }
        }
        assert(r =~= whole.take(r.len() as int));
        assert(r.subrange(0, h.len() as int) =~= h);
        if forall|i: int|
            0 <= i < list.len() ==> trim::is_trimmed((#[trigger] list[i]).citation_hint)
                && list[i].citation_hint.len() > 0 {
            let front = lines.drop_last();
            let hints = Seq::new(list.len(), |i: int| list[i].citation_hint);
            let last = list.last().citation_hint;
            assert(list.last() == list[list.len() - 1]);
            assert(lines =~= front.push(last + "\n"@));
            pieces::lemma_join_push(front, ""@, last + "\n"@);
            reveal_strlit("");
            let early = pieces::join(front, ""@);
            if front.len() == 0 {
                assert(early =~= seq![]);
            }
            assert(body =~= early + last + "\n"@);
            let kept = heading + early + last;
            assert(whole =~= kept.push('\n'));
            assert(kept.last() == last.last());
            lemma_trim_end_keeps(kept);
            assert(r == kept);
            let inner = hints.drop_last();
            assert forall|i: int| 0 <= i < front.len() implies text::contains(
                #[trigger] front[i],
                inner[i],
            ) by {
                finding::lemma_holds_front(list[i].citation_hint, "\n"@, inner[i]);
            }
            lemma_order_of_blocks(front, ""@, inner);
            finding::lemma_order_shifts(heading, early, inner);
            finding::lemma_order_push(heading + early, inner, last);
            assert(inner.push(last) =~= hints);
        }
    }
}

spec fn chars_white_from(t: Seq<char>, n: int) -> bool {
    forall|i: int| n <= i < t.len() ==> crate::chars::is_white(#[trigger] t[i])
}

/// Only the line feed is trimmed from a text that ends in ink and a line feed.
proof fn lemma_trim_end_keeps(t: Seq<char>)
    requires
        t.len() > 0,
        !crate::chars::is_white(t.last()),
    ensures
        trim::trim_end(t.push('\n')) == t,
{
    assert(t.push('\n').drop_last() =~= t);
    reveal_with_fuel(trim::trim_end, 3);
}

proof fn lemma_style_heading(style: ReferenceStyle)
    ensures
        style.heading().len() > 0,
        !crate::chars::is_white(style.heading().last()),
{
    reveal_strlit("References");
    reveal_strlit("Works Cited");
    reveal_strlit("Reference List");
    reveal_strlit("Bibliography");
}

/// What a model is told of sections that are written holds each of them in order: its heading, and
/// the beginning of its text.
pub proof fn law_continuity_holds_every_section(list: Seq<SectionView>)
    requires
        list.len() > 0,
    ensures
        finding::stand_in_order(
            rendering::continuity(list),
            Seq::new(
                list.len(),
                |i: int|
                    list[i].heading + ": "@ + excerpt::truncated(
                        sections::preview(list[i].content, 320),
                        320,
                    ),
            ),
        ),
{
    let notes = Seq::new(
        list.len(),
        |i: int|
            list[i].heading + ": "@ + excerpt::truncated(
                sections::preview(list[i].content, 320),
                320,
            ),
    );
    assert(rendering::section_notes(list) =~= notes);
    finding::lemma_order_of_join(notes, "\n"@);
}

/// What a model is told of parts that are written holds the beginning of each in order.
pub proof fn law_earlier_parts_are_held(parts: Seq<Seq<char>>)
    requires
        parts.len() > 0,
    ensures
        finding::stand_in_order(
            rendering::earlier_parts(parts),
            Seq::new(parts.len(), |i: int| excerpt::truncated(trim::trim(parts[i]), 260)),
        ),
{
    let notes = rendering::part_notes(parts);
    let inner = Seq::new(parts.len(), |i: int| excerpt::truncated(trim::trim(parts[i]), 260));
    assert forall|i: int| 0 <= i < notes.len() implies text::contains(
        #[trigger] notes[i],
        inner[i],
    ) by {
        assert(text::contains(rendering::part_note(i, parts[i]), inner[i]));
    }
    lemma_order_of_blocks(notes, "\n"@, inner);
}

/// The questions of a plan are told in order.
pub proof fn law_questions_are_held(questions: Seq<Seq<char>>)
    requires
        questions.len() > 0,
    ensures
        finding::stand_in_order(rendering::questions_text(questions), questions),
{
    finding::lemma_order_of_join(questions, " | "@);
}

// Keys

/// A source is cited by its author and its year. An author who is no host stays as written; a host
/// stays or becomes the name of a publisher whose mark it holds.
pub proof fn law_citation_keys(s: SourceView)
    ensures
        ({
            let a = trim::trim(s.author_or_channel);
            let key = rendering::citation_key(s);
            let year = ", "@ + (match s.year_hint {
                Some(y) => numbers::decimal_int(y),
                None => "n.d."@,
            });
            &&& !text::contains(a, "."@) || text::contains(a, " "@) ==> key == a + year
            &&& key == a + year || exists|k: int|
                0 <= k < rendering::publishers().len() && text::contains(
                    a,
                    (#[trigger] rendering::publishers()[k]).0,
                ) && key == rendering::publishers()[k].1 + year
        }),
{
    lemma_publisher(rendering::publishers(), trim::trim(s.author_or_channel));
    let a = trim::trim(s.author_or_channel);
    let year = ", "@ + sources::year_label(s.year_hint);
    assert(rendering::citation_key(s) =~= rendering::readable_author(s.author_or_channel) + year);
}

proof fn lemma_publisher(list: Seq<(Seq<char>, Seq<char>)>, host: Seq<char>)
    ensures
        rendering::named_publisher(list, host) == host || exists|k: int|
            0 <= k < list.len() && text::contains(host, (#[trigger] list[k]).0)
                && rendering::named_publisher(list, host) == list[k].1,
    decreases list.len(),
{
    if list.len() > 0 && !text::contains(host, list[0].0) {
        lemma_publisher(list.skip(1), host);
        if rendering::named_publisher(list.skip(1), host) != host {
            let k = choose|k: int|
                0 <= k < list.skip(1).len() && text::contains(host, (#[trigger] list.skip(1)[k]).0)
                    && rendering::named_publisher(list.skip(1), host) == list.skip(1)[k].1;
            assert(list[k + 1] == list.skip(1)[k]);
        }
    }
}

// Briefs

/// The lesser of two numbers.
pub open spec fn lesser(a: nat, b: nat) -> nat {
    if a < b {
        a
    } else {
        b
    }
}

/// The evidence of a brief holds each of the first fourteen sources in order: its kind, its title,
/// where it is from, and its address.
pub proof fn law_packets_hold_the_first_sources(list: Seq<SourceView>)
    requires
        list.len() > 0,
    ensures
        ({
            let t = rendering::packets_text(list);
            let n = lesser(list.len(), 14);
            &&& finding::stand_in_order(
                t,
                Seq::new(
                    n,
                    |i: int|
                        "type="@ + list[i].source_type + " | title="@ + list[i].title
                            + " | source="@ + list[i].author_or_channel + " | url="@ + list[i].url,
                ),
            )
            &&& finding::stand_in_order(
                t,
                Seq::new(
                    n,
                    |i: int| " | summary="@ + pieces::replace(list[i].summary, "\n"@, " "@),
                ),
            )
        }),
{
    let packets = rendering::source_packets(list);
    let n = lesser(list.len(), 14);
    let facts = Seq::new(
        n,
        |i: int|
            "type="@ + list[i].source_type + " | title="@ + list[i].title + " | source="@
                + list[i].author_or_channel + " | url="@ + list[i].url,
    );
    let summaries = Seq::new(
        n,
        |i: int| " | summary="@ + pieces::replace(list[i].summary, "\n"@, " "@),
    );
    assert forall|i: int| 0 <= i < packets.len() implies text::contains(
        #[trigger] packets[i],
        facts[i],
    ) by {
        lemma_packet(i, list[i]);
    }
    assert forall|i: int| 0 <= i < packets.len() implies text::contains(
        #[trigger] packets[i],
        summaries[i],
    ) by {
        lemma_packet(i, list[i]);
    }
    lemma_order_of_blocks(packets, ""@, facts);
    lemma_order_of_blocks(packets, ""@, summaries);
}

proof fn lemma_packet(i: int, s: SourceView)
    ensures
        text::contains(
            rendering::source_packet(i, s),
            "type="@ + s.source_type + " | title="@ + s.title + " | source="@ + s.author_or_channel
                + " | url="@ + s.url,
        ),
        text::contains(
            rendering::source_packet(i, s),
            " | summary="@ + pieces::replace(s.summary, "\n"@, " "@),
        ),
{
    reveal_strlit("] type=");
    reveal_strlit("] ");
    reveal_strlit("type=");
    assert("] type="@ =~= "] "@ + "type="@);
    let url = rendering::or_else(s.url, "N/A"@);
    let facts = "type="@ + s.source_type + " | title="@ + s.title + " | source="@
        + s.author_or_channel + " | url="@;
    let rest = " | summary="@ + pieces::replace(s.summary, "\n"@, " "@) + "\n"@;
    let t = rendering::source_packet(i, s);
    let above = "["@ + rendering::ordinal(i) + "] "@;
    assert(t =~= above + facts + url + rest);
    assert(text::contains(t, facts + url));
    if s.url.len() == 0 {
        assert(facts + s.url =~= facts);
        finding::lemma_holds_front(facts, url, facts);
        finding::lemma_holds_through(t, facts + url, facts);
    }
}

/// A brief without a model tells its topic, then of the first three sources what they say, of the
/// first five where they are, and of the first three books who wrote them.
#[verifier::rlimit(40)]
pub proof fn law_plain_briefs_hold_the_first_sources(topic: Seq<char>, list: Seq<SourceView>)
    ensures
        ({
            let t = rendering::plain_brief(topic, list);
            let books = list.filter(
                |s: SourceView|
                    s.source_type == "book"@ || s.source_type == "public_domain_book"@,
            );
            &&& ("Research brief: "@ + topic).is_prefix_of(t)
            &&& finding::stand_in_order(
                t,
                Seq::new(
                    lesser(list.len(), 3),
                    |i: int|
                        "- "@ + list[i].title + ": "@ + excerpt::truncated(list[i].summary, 180),
                ) + Seq::new(
                    lesser(list.len(), 5),
                    |i: int|
                        if list[i].url.len() == 0 {
                            "- "@ + list[i].title
                        } else {
                            "- "@ + list[i].title + " — "@ + list[i].url
                        },
                ) + Seq::new(
                    lesser(books.len(), 3),
                    |i: int|
                        "- "@ + books[i].title + " by "@ + books[i].author_or_channel,
                ),
            )
        }),
{
    let t = rendering::plain_brief(topic, list);
    let kinds = |s: SourceView| s.source_type == "book"@ || s.source_type == "public_domain_book"@;
    let books = list.filter(kinds);
    assert(rendering::book_test() =~= kinds);
    let said = Seq::new(
        lesser(list.len(), 3),
        |i: int| "- "@ + list[i].title + ": "@ + excerpt::truncated(list[i].summary, 180),
    );
    let places = Seq::new(
        lesser(list.len(), 5),
        |i: int|
            if list[i].url.len() == 0 {
                "- "@ + list[i].title
            } else {
                "- "@ + list[i].title + " — "@ + list[i].url
            },
    );
    let authors = Seq::new(
        lesser(books.len(), 3),
        |i: int| "- "@ + books[i].title + " by "@ + books[i].author_or_channel,
    );
    let intro = "Research brief: "@ + topic
        + "\n\nI pulled what I could from web search, YouTube, public discussion, and legal book sources. The strongest immediate signal is below.\n\nWhat stands out:\n"@;
    let first = if list.len() == 0 {
        "- I could not retrieve live sources for this topic, so the answer should be treated cautiously."@
    } else {
        pieces::join(rendering::summary_lines(list), "\n"@)
    };
    let links = rendering::block("\n\nSources to open:\n"@, rendering::link_lines(list));
    let shelf = rendering::block("\n\nBooks:\n"@, rendering::book_lines(list));
    if list.len() == 0 {
        finding::lemma_none_in_order(first);
        assert(said =~= Seq::empty());
    } else {
        assert(rendering::summary_lines(list) =~= said);
        finding::lemma_order_of_join(said, "\n"@);
    }
    let lines = rendering::link_lines(list);
    assert forall|i: int| 0 <= i < lines.len() implies text::contains(
        #[trigger] lines[i],
        places[i],
    ) by {
        assert(text::contains(rendering::link_line(list[i]), places[i]));
    }
    lemma_order_of_blocks(lines, "\n"@, places);
    if lines.len() == 0 {
        finding::lemma_none_in_order(links);
        assert(places =~= Seq::empty());
    } else {
        finding::lemma_order_shifts("\n\nSources to open:\n"@, pieces::join(lines, "\n"@), places);
    }
    let titles = rendering::book_lines(list);
    assert forall|i: int| 0 <= i < titles.len() implies text::contains(
        #[trigger] titles[i],
        authors[i],
    ) by {
        assert(text::contains(rendering::book_line(books[i]), authors[i]));
    }
    lemma_order_of_blocks(titles, "\n"@, authors);
    if titles.len() == 0 {
        finding::lemma_none_in_order(shelf);
        assert(authors =~= Seq::empty());
    } else {
        finding::lemma_order_shifts("\n\nBooks:\n"@, pieces::join(titles, "\n"@), authors);
    }
    finding::lemma_order_shifts(intro, first, said);
    finding::lemma_order_concat(intro + first, said, links, places);
    finding::lemma_order_concat(intro + first + links, said + places, shelf, authors);
    assert(t == intro + first + links + shelf);
    let h = "Research brief: "@ + topic;
    assert(t.subrange(0, h.len() as int) =~= h);
}

/// The answer of a model is the brief: all of it where it has room, else a beginning of it with dots
/// behind.
pub proof fn law_answers_become_briefs(answer: Seq<char>, topic: Seq<char>, list: Seq<SourceView>)
    ensures
        ({
            let a = trim::trim(sections::without_fences(answer));
            let t = rendering::brief_text(answer, topic, list);
            a.len() > 0 ==> bytes::byte_len(t) <= 3_403 && (bytes::byte_len(a) <= 3_400 ==> t == a)
                && (bytes::byte_len(a) > 3_400 ==> exists|n: int|
                0 <= n <= a.len() && t == #[trigger] a.take(n) + "..."@)
        }),
{
    excerpt::law_truncated(trim::trim(sections::without_fences(answer)), 3_400);
}

} // verus!
