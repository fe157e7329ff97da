//! The quality gates: each of them by itself refuses a text, says so, and is met by what is accepted.

use crate::blueprint::{BlueprintView, DocumentView, PartView};
use crate::chars;
use crate::laws::finding;
use crate::models::{QualityView, ReferenceStyle, SectionView};
use crate::numbers;
use crate::outline;
use crate::pieces;
use crate::quality;
use crate::text;
use crate::trim;
use vstd::prelude::*;

verus! {

broadcast use finding::group_holds;

// Counting

/// Citations add up: where a text goes on with something in parentheses, that is one more if it
/// holds a letter, and a digit or a comma; and what follows counts as by itself.
pub proof fn law_citations_add_up(a: Seq<char>, c: Seq<char>, b: Seq<char>)
    requires
        !c.contains('('),
        !c.contains(')'),
    ensures
        quality::citations(a + seq!['('] + c + seq![')'] + b) == quality::citations(a) + (if (exists|
            i: int,
        |
            0 <= i < c.len() && chars::alphabetic(#[trigger] c[i])) && ((exists|i: int|
            0 <= i < c.len() && chars::is_digit(#[trigger] c[i])) || c.contains(',')) {
            1int
        } else {
            0int
        }) + quality::citations(b),
{
    lemma_citations_after(a, None, c, b);
}

proof fn lemma_citations_after(a: Seq<char>, open: Option<Seq<char>>, c: Seq<char>, b: Seq<char>)
    requires
        !c.contains('('),
        !c.contains(')'),
    ensures
        quality::citations_after(a + seq!['('] + c + seq![')'] + b, open)
            == quality::citations_after(a, open) + (if quality::is_citation(c) {
            1int
        } else {
            0int
        }) + quality::citations(b),
    decreases a.len(),
{
    let t = a + seq!['('] + c + seq![')'] + b;
    if a.len() == 0 {
        assert(t[0] == '(');
        assert(t.skip(1) =~= c + seq![')'] + b);
        lemma_citation_read(seq![], c, b);
        assert(seq![] + c =~= c);
    } else {
        assert(t[0] == a[0]);
        assert(t.skip(1) =~= a.skip(1) + seq!['('] + c + seq![')'] + b);
        let next = if a[0] == '(' {
            Some(Seq::<char>::empty())
        } else {
            match open {
                Some(read) => if a[0] == ')' {
                    None
                } else {
                    Some(read.push(a[0]))
                },
                None => None,
            }
        };
        lemma_citations_after(a.skip(1), next, c, b);
    }
}

proof fn lemma_citation_read(read: Seq<char>, c: Seq<char>, b: Seq<char>)
    requires
        !c.contains('('),
        !c.contains(')'),
    ensures
        quality::citations_after(c + seq![')'] + b, Some(read)) == (if quality::is_citation(
            read + c,
        ) {
            1int
        } else {
            0int
        }) + quality::citations(b),
    decreases c.len(),
{
    let t = c + seq![')'] + b;
    if c.len() == 0 {
        assert(t[0] == ')');
        assert(t.skip(1) =~= b);
        assert(read + c =~= read);
    } else {
        assert(c.contains(c[0]));
        assert(t[0] == c[0]);
        assert(t.skip(1) =~= c.skip(1) + seq![')'] + b);
        assert forall|x: char| c.skip(1).contains(x) implies c.contains(x) by {
            let i = choose|i: int| 0 <= i < c.skip(1).len() && c.skip(1)[i] == x;
            assert(c[i + 1] == x);
        }
        lemma_citation_read(read.push(c[0]), c.skip(1), b);
        assert(read.push(c[0]) + c.skip(1) =~= read + c);
    }
}

/// Without a parenthesis that is opened and closed there is no citation.
pub proof fn law_no_citations(t: Seq<char>)
    requires
        !t.contains('(') || !t.contains(')'),
    ensures
        quality::citations(t) == 0,
{
    lemma_no_citations(t, None);
}

proof fn lemma_no_citations(t: Seq<char>, open: Option<Seq<char>>)
    requires
        !t.contains(')') || (!t.contains('(') && open is None),
    ensures
        quality::citations_after(t, open) == 0,
    decreases t.len(),
{
    if t.len() > 0 {
        assert(t.contains(t[0]));
        assert forall|x: char| t.skip(1).contains(x) implies t.contains(x) by {
            let i = choose|i: int| 0 <= i < t.skip(1).len() && t.skip(1)[i] == x;
            assert(t[i + 1] == x);
        }
        let next = if t[0] == '(' {
            Some(Seq::<char>::empty())
        } else {
            match open {
                Some(read) => Some(read.push(t[0])),
                None => None,
            }
        };
        lemma_no_citations(t.skip(1), next);
    }
}

/// Words add up: white space parts the words before it from those behind it, and a text without any
/// is one word.
pub proof fn law_words_add_up(a: Seq<char>, w: char, b: Seq<char>)
    requires
        chars::is_white(w),
    ensures
        pieces::words(a.push(w) + b) == pieces::words(a) + pieces::words(b),
        quality::word_count(a.push(w) + b) == quality::word_count(a) + quality::word_count(b),
        quality::word_count(Seq::<char>::empty()) == 0,
        a.len() > 0 && (forall|i: int| 0 <= i < a.len() ==> !chars::is_white(#[trigger] a[i]))
            ==> pieces::words(a) == seq![a] && quality::word_count(a) == 1,
{
    lemma_words_apart(a, w, b);
    if a.len() > 0 && forall|i: int| 0 <= i < a.len() ==> !chars::is_white(#[trigger] a[i]) {
        assert(!chars::is_white(a[0]));
        assert(trim::trim_start(a) == a);
        pieces::lemma_word_length(a);
        assert(a.take(a.len() as int) =~= a);
        assert(a.skip(a.len() as int) =~= seq![]);
        assert(pieces::words(a.skip(a.len() as int)) =~= seq![]);
        assert(pieces::words(a) =~= seq![a]);
    }
}

proof fn lemma_words_apart(a: Seq<char>, w: char, b: Seq<char>)
    requires
        chars::is_white(w),
    ensures
        pieces::words(a.push(w) + b) == pieces::words(a) + pieces::words(b),
    decreases a.len(),
{
    let s = a.push(w) + b;
    if a.len() == 0 {
        assert(s[0] == w);
        assert(s.skip(1) =~= b);
        assert(trim::trim_start(s) == trim::trim_start(b));
        assert(pieces::words(s) == pieces::words(b));
        assert(pieces::words(a) =~= seq![]);
        assert(pieces::words(a) + pieces::words(b) =~= pieces::words(b));
    } else if chars::is_white(a[0]) {
        assert(s[0] == a[0]);
        assert(s.skip(1) =~= a.skip(1).push(w) + b);
        assert(trim::trim_start(s) == trim::trim_start(s.skip(1)));
        assert(trim::trim_start(a) == trim::trim_start(a.skip(1)));
        assert(pieces::words(s) == pieces::words(s.skip(1)));
        assert(pieces::words(a) == pieces::words(a.skip(1)));
        lemma_words_apart(a.skip(1), w, b);
    } else {
        let k = pieces::word_length(a);
        pieces::lemma_word_length(a);
        pieces::lemma_word_length(s);
        assert(s[0] == a[0]);
        assert(pieces::word_length(s) == k) by {
            assert forall|i: int| 0 <= i < a.len() implies s[i] == a[i] by {}
            assert(s[a.len() as int] == w);
            let m = pieces::word_length(s);
            if m < k {
                assert(chars::is_white(s[m]));
                assert(s[m] == a[m]);
            }
            if m > k {
                if k < a.len() {
                    assert(s[k] == a[k]);
                } else {
                    assert(s[k] == w);
                }
            }
        }
        assert(s.take(k) =~= a.take(k));
        assert(s.skip(k) =~= a.skip(k).push(w) + b);
        assert(trim::trim_start(s) == s);
        assert(trim::trim_start(a) == a);
        lemma_words_apart(a.skip(k), w, b);
        assert(pieces::words(s) =~= pieces::words(a) + pieces::words(b));
    }
}

/// What passes a test is nothing where nothing passes.
proof fn lemma_filter_none<A>(s: Seq<A>, p: spec_fn(A) -> bool)
    ensures
        s.filter(p).len() == 0 <==> forall|i: int| 0 <= i < s.len() ==> !p(#[trigger] s[i]),
    decreases s.len(),
{
    reveal(Seq::filter);
    if s.len() > 0 {
        let front = s.drop_last();
        lemma_filter_none(front, p);
        assert(s.last() == s[s.len() - 1]);
        if forall|i: int| 0 <= i < s.len() ==> !p(#[trigger] s[i]) {
            assert forall|i: int| 0 <= i < front.len() implies !p(#[trigger] front[i]) by {
                assert(front[i] == s[i]);
            }
        } else if s.filter(p).len() == 0 {
            assert forall|i: int| 0 <= i < s.len() implies !p(#[trigger] s[i]) by {
                if i < front.len() {
                    assert(front[i] == s[i]);
                }
            }
        }
    }
}

/// A text is clean where no line of it belongs to a list, and none holds a drafting note.
pub open spec fn is_clean(t: Seq<char>) -> bool {
    forall|i: int|
        0 <= i < pieces::lines(t).len() ==> !outline::is_bullet(#[trigger] pieces::lines(t)[i])
            && forall|h: Seq<char>| !#[trigger] outline::line_holds(pieces::lines(t)[i], h)
}

/// Whether a line of a text belongs to a list.
pub open spec fn has_list(t: Seq<char>) -> bool {
    exists|i: int|
        0 <= i < pieces::lines(t).len() && outline::is_bullet(#[trigger] pieces::lines(t)[i])
}

proof fn lemma_clean(t: Seq<char>)
    ensures
        outline::bullets(t) >= 0,
        outline::bullets(t) == 0 <==> !has_list(t),
        outline::is_prose(t) <==> is_clean(t),
        outline::hits(t).len() == 0 <==> forall|i: int|
            0 <= i < pieces::lines(t).len() ==> forall|h: Seq<char>|
                !#[trigger] outline::line_holds(#[trigger] pieces::lines(t)[i], h),
{
    let ls = pieces::lines(t);
    lemma_filter_none(ls, outline::bullet_test());
    outline::law_hits_are_what_the_lines_hold(t);
    let hits = outline::hits(t);
    if hits.len() == 0 {
        assert forall|i: int, h: Seq<char>|
            0 <= i < ls.len() implies !#[trigger] outline::line_holds(#[trigger] ls[i], h) by {
            if outline::line_holds(ls[i], h) {
                assert(hits.contains(h));
            }
        }
    } else {
        assert(hits.contains(hits[0]));
        let i = choose|i: int| 0 <= i < ls.len() && outline::line_holds(#[trigger] ls[i], hits[0]);
        assert(outline::line_holds(ls[i], hits[0]));
    }
    if has_list(t) {
        let i = choose|i: int| 0 <= i < ls.len() && outline::is_bullet(#[trigger] ls[i]);
        assert(outline::bullet_test()(ls[i]));
    } else {
        assert forall|i: int| 0 <= i < ls.len() implies !outline::bullet_test()(#[trigger] ls[i]) by {
            assert(!outline::is_bullet(ls[i]));
        }
    }
}

// What is read of a report

/// What is read of a report is all before the first heading of its bibliography, but for white space
/// at the end; all of it where there is no such heading.
pub proof fn law_what_is_read(markdown: Seq<char>, style: ReferenceStyle)
    ensures
        ({
            let h = "## "@ + style.heading();
            let read = quality::narrative(markdown, style);
            &&& !text::contains(markdown, h) ==> read == markdown
            &&& text::contains(markdown, h) ==> exists|i: int|
                text::occurs_at(markdown, h, i) && (forall|j: int|
                    0 <= j < i ==> !#[trigger] text::occurs_at(markdown, h, j))
                    && read == trim::trim_end(#[trigger] markdown.take(i))
        }),
{
    let h = "## "@ + style.heading();
    text::lemma_find(markdown, h);
    match text::find(markdown, h) {
        Some(i) => {
            text::lemma_find_from(markdown, h, 0);
            assert(text::occurs_at(markdown, h, i));
            assert forall|j: int| 0 <= j < i implies !#[trigger] text::occurs_at(markdown, h, j) by {}
            assert(quality::narrative(markdown, style) == trim::trim_end(markdown.take(i)));
        },
        None => {
            if text::contains(markdown, h) {
                let i = choose|i: int| text::occurs_at(markdown, h, i);
                text::lemma_find_from(markdown, h, 0);
            }
        },
    }
}

// Whole reports

/// Whether a text holds the heading of every section of a report.
pub open spec fn has_every_heading(markdown: Seq<char>, list: Seq<BlueprintView>) -> bool {
    forall|i: int|
        0 <= i < list.len() ==> text::contains(markdown, "## "@ + (#[trigger] list[i]).heading)
}

proof fn lemma_missing(list: Seq<BlueprintView>, markdown: Seq<char>)
    ensures
        quality::missing_headings(list, markdown).len() == 0 <==> has_every_heading(markdown, list),
        forall|i: int|
            0 <= i < list.len() && !text::contains(markdown, "## "@ + (#[trigger] list[i]).heading)
                ==> quality::missing_headings(list, markdown).contains(list[i].heading),
    decreases list.len(),
{
    if list.len() > 0 {
        let front = list.drop_last();
        lemma_missing(front, markdown);
        let less = quality::missing_headings(front, markdown);
        let all = quality::missing_headings(list, markdown);
        assert(list.last() == list[list.len() - 1]);
        if has_every_heading(markdown, list) {
            assert forall|i: int| 0 <= i < front.len() implies text::contains(
                markdown,
                "## "@ + (#[trigger] front[i]).heading,
            ) by {
                assert(front[i] == list[i]);
            }
        }
        if all.len() == 0 {
            assert forall|i: int| 0 <= i < list.len() implies text::contains(
                markdown,
                "## "@ + (#[trigger] list[i]).heading,
            ) by {
                if i < front.len() {
                    assert(front[i] == list[i]);
                }
            }
        }
        assert forall|i: int|
            0 <= i < list.len() && !text::contains(
                markdown,
                "## "@ + (#[trigger] list[i]).heading,
            ) implies all.contains(list[i].heading) by {
            if i < front.len() {
                assert(front[i] == list[i]);
                assert(less.contains(front[i].heading));
                let k = choose|k: int| 0 <= k < less.len() && less[k] == list[i].heading;
                assert(all[k] == list[i].heading);
            } else {
                assert(all[all.len() - 1] == list[i].heading);
            }
        }
    }
}

/// A report is accepted exactly where it meets each gate: it holds every heading and that of its
/// bibliography, and what is read of it is clean, long enough and cited as often as the target asks.
pub proof fn law_accepted_reports_meet_every_gate(
    markdown: Seq<char>,
    spec: DocumentView,
    target: int,
    style: ReferenceStyle,
)
    ensures
        ({
            let read = quality::narrative(markdown, style);
            quality::report_accepted(quality::report_quality(markdown, spec, target, style)) <==> {
                &&& has_every_heading(markdown, spec.sections)
                &&& text::contains(markdown, "## "@ + style.heading())
                &&& is_clean(read)
                &&& quality::word_count(read) >= spec.minimum_words * 20 / 100
                &&& quality::citations(read) >= target
            }
        }),
{
    lemma_missing(spec.sections, markdown);
    lemma_clean(quality::narrative(markdown, style));
}

/// What is found of a report is what there is: its counts are those of what is read, and each flag
/// says whether its gate is met.
pub proof fn law_findings_of_reports(
    markdown: Seq<char>,
    spec: DocumentView,
    target: int,
    style: ReferenceStyle,
)
    ensures
        ({
            let read = quality::narrative(markdown, style);
            let q = quality::report_quality(markdown, spec, target, style);
            &&& q.actual_word_count == quality::word_count(read)
            &&& q.citation_mentions == quality::citations(read)
            &&& q.minimum_word_count == spec.minimum_words * 20 / 100
            &&& q.citation_target == target
            &&& q.minimum_word_count_met <==> q.actual_word_count >= q.minimum_word_count
            &&& q.citation_target_met <==> q.citation_mentions >= target
            &&& q.required_headings_present <==> has_every_heading(markdown, spec.sections)
            &&& q.references_present <==> text::contains(markdown, "## "@ + style.heading())
            &&& q.bullet_free <==> !has_list(read)
            &&& q.prose_only <==> is_clean(read)
        }),
{
    lemma_missing(spec.sections, markdown);
    lemma_clean(quality::narrative(markdown, style));
}

/// The reasons in one line hold each of them.
proof fn lemma_told(reasons: Seq<Seq<char>>, k: int)
    requires
        0 <= k < reasons.len(),
    ensures
        text::contains(quality::reasons_text(reasons), reasons[k]),
{
    finding::lemma_order_of_join(reasons, "; "@);
    finding::lemma_held_in_order(quality::reasons_text(reasons), reasons, k);
}

/// Where something is one of the joined texts, it stands in the joined text.
proof fn lemma_joined_holds(list: Seq<Seq<char>>, sep: Seq<char>, t: Seq<char>)
    requires
        list.contains(t),
    ensures
        text::contains(pieces::join(list, sep), t),
{
    let k = choose|k: int| 0 <= k < list.len() && list[k] == t;
    finding::lemma_order_of_join(list, sep);
    finding::lemma_held_in_order(pieces::join(list, sep), list, k);
}

/// Each gate that a report fails is told among the reasons, with what is missing or the counts; and
/// where it fails none, nothing is told.
#[verifier::rlimit(40)]
pub proof fn law_every_failed_gate_is_told(
    markdown: Seq<char>,
    spec: DocumentView,
    target: int,
    style: ReferenceStyle,
)
    ensures
        ({
            let read = quality::narrative(markdown, style);
            let q = quality::report_quality(markdown, spec, target, style);
            let told = quality::reasons_text(quality::report_reasons(q));
            &&& forall|i: int|
                0 <= i < spec.sections.len() && !text::contains(
                    markdown,
                    "## "@ + (#[trigger] spec.sections[i]).heading,
                ) ==> text::contains(told, "missing headings: "@) && text::contains(
                    told,
                    spec.sections[i].heading,
                )
            &&& !text::contains(markdown, "## "@ + style.heading()) ==> text::contains(
                told,
                "missing bibliography/references section"@,
            )
            &&& has_list(read) ==> text::contains(told, "contains bullet or outline formatting"@)
            &&& forall|i: int, h: Seq<char>|
                0 <= i < pieces::lines(read).len() && #[trigger] outline::line_holds(
                    pieces::lines(read)[i],
                    h,
                ) ==> text::contains(told, "contains prose violations: "@) && text::contains(
                    told,
                    h,
                )
            &&& quality::word_count(read) < spec.minimum_words * 20 / 100 ==> text::contains(
                told,
                "word count too low ("@ + numbers::decimal(quality::word_count(read) as nat)
                    + " of "@ + numbers::decimal((spec.minimum_words * 20 / 100) as nat) + ")"@,
            )
            &&& quality::citations(read) < target ==> text::contains(
                told,
                "citation count too low ("@ + numbers::decimal(quality::citations(read) as nat)
                    + " of target "@ + numbers::decimal(target as nat) + ")"@,
            )
            &&& quality::report_accepted(q) ==> told.len() == 0
        }),
{
    let read = quality::narrative(markdown, style);
    let q = quality::report_quality(markdown, spec, target, style);
    let reasons = quality::report_reasons(q);
    let told = quality::reasons_text(reasons);
    lemma_missing(spec.sections, markdown);
    lemma_clean(read);
    outline::law_hits_are_what_the_lines_hold(read);
    quality::law_report_accepted_without_reasons(markdown, spec, target, style);
    let headings = "missing headings: "@ + pieces::join(q.missing_headings, ", "@);
    let marks = "contains prose violations: "@ + pieces::join(q.banned_phrase_hits, ", "@);
    let a = quality::with_reason(seq![], !q.required_headings_present, headings);
    let b = quality::with_reason(
        a,
        !q.references_present,
        "missing bibliography/references section"@,
    );
    let c = quality::with_reason(b, !q.bullet_free, "contains bullet or outline formatting"@);
    let d = quality::with_reason(c, !q.prose_only && q.banned_phrase_hits.len() > 0, marks);
    let e = quality::with_reason(
        d,
        !q.minimum_word_count_met,
        quality::word_count_too_low(q),
    );
    assert(a.len() <= b.len() <= c.len() <= d.len() <= e.len() <= reasons.len());
    assert forall|i: int|
        0 <= i < spec.sections.len() && !text::contains(
            markdown,
            "## "@ + (#[trigger] spec.sections[i]).heading,
        ) implies text::contains(told, "missing headings: "@) && text::contains(
        told,
        spec.sections[i].heading,
    ) by {
        assert(reasons[0] == headings);
        lemma_told(reasons, 0);
        lemma_joined_holds(q.missing_headings, ", "@, spec.sections[i].heading);
        finding::lemma_holds_through(told, headings, "missing headings: "@);
        finding::lemma_holds_through(told, headings, spec.sections[i].heading);
    }
    if !q.references_present {
        assert(reasons[b.len() - 1] == "missing bibliography/references section"@);
        lemma_told(reasons, b.len() - 1);
    }
    if !q.bullet_free {
        assert(reasons[c.len() - 1] == "contains bullet or outline formatting"@);
        lemma_told(reasons, c.len() - 1);
    }
    assert forall|i: int, h: Seq<char>|
        0 <= i < pieces::lines(read).len() && #[trigger] outline::line_holds(
            pieces::lines(read)[i],
            h,
        ) implies text::contains(told, "contains prose violations: "@) && text::contains(told, h) by {
        let line = pieces::lines(read)[i];
        assert(outline::hits(read).contains(h));
        assert(reasons[d.len() - 1] == marks);
        lemma_told(reasons, d.len() - 1);
        lemma_joined_holds(q.banned_phrase_hits, ", "@, h);
        finding::lemma_holds_through(told, marks, "contains prose violations: "@);
        finding::lemma_holds_through(told, marks, h);
    }
    if !q.minimum_word_count_met {
        assert(reasons[e.len() - 1] == quality::word_count_too_low(q));
        lemma_told(reasons, e.len() - 1);
    }
    if !q.citation_target_met {
        assert(reasons[reasons.len() - 1] == quality::citation_count_too_low(q));
        lemma_told(reasons, reasons.len() - 1);
    }
}

// Sections and their parts

/// A section is accepted exactly where it holds its heading, is clean, and has the words and the
/// citations that are asked of it.
pub proof fn law_accepted_sections_meet_every_gate(section: Seq<char>, b: BlueprintView)
    ensures
        quality::assessment(section, b).is_accepted() <==> {
            &&& text::contains(section, "## "@ + b.heading)
            &&& quality::word_count(section) >= b.target_words * 20 / 100
            &&& quality::citations(section) >= b.minimum_citations
            &&& is_clean(section)
        },
{
    lemma_clean(section);
}

/// A part of a section is accepted exactly where it is clean, and has the words and the citations
/// that are asked of it.
pub proof fn law_accepted_parts_meet_every_gate(fragment: Seq<char>, p: PartView)
    ensures
        quality::part_assessment(fragment, p).is_accepted() <==> {
            &&& quality::word_count(fragment) >= p.target_words * 30 / 100
            &&& quality::citations(fragment) >= p.minimum_citations
            &&& is_clean(fragment)
        },
{
    lemma_clean(fragment);
}

/// Each gate that a section fails is told among the reasons.
#[verifier::rlimit(40)]
pub proof fn law_every_failed_gate_of_a_section_is_told(section: Seq<char>, b: BlueprintView)
    ensures
        ({
            let told = quality::reasons_text(quality::assessment(section, b).reasons());
            let words = quality::word_count(section);
            let cited = quality::citations(section);
            &&& !text::contains(section, "## "@ + b.heading) ==> text::contains(
                told,
                "missing section heading"@,
            )
            &&& words < b.target_words * 20 / 100 ==> text::contains(
                told,
                "too short ("@ + numbers::decimal(words as nat) + " words, need at least "@
                    + numbers::decimal((b.target_words * 20 / 100) as nat) + ")"@,
            )
            &&& cited < b.minimum_citations ==> text::contains(
                told,
                "too few citations ("@ + numbers::decimal(cited as nat) + " found, need at least "@
                    + numbers::decimal(b.minimum_citations as nat) + ")"@,
            )
            &&& has_list(section) ==> text::contains(told, " bullet/outline lines"@)
            &&& forall|i: int, h: Seq<char>|
                0 <= i < pieces::lines(section).len() && #[trigger] outline::line_holds(
                    pieces::lines(section)[i],
                    h,
                ) ==> text::contains(told, "contains meta/outlining markers: "@)
                    && text::contains(told, h)
        }),
{
    let found = quality::assessment(section, b);
    let reasons = found.reasons();
    let told = quality::reasons_text(reasons);
    lemma_clean(section);
    outline::law_hits_are_what_the_lines_hold(section);
    let r1 = quality::with_reason(seq![], !found.heading_present, "missing section heading"@);
    let r2 = quality::with_reason(
        r1,
        found.word_count < found.minimum_word_count,
        quality::too_short(found.word_count, found.minimum_word_count),
    );
    let r3 = quality::with_reason(
        r2,
        found.citation_mentions < found.minimum_citations,
        quality::too_few_citations(found.citation_mentions, found.minimum_citations),
    );
    let r4 = quality::with_reason(
        r3,
        found.bullet_lines > 0,
        quality::holds_bullets(found.bullet_lines),
    );
    let marks = quality::holds_markers(found.banned_phrase_hits);
    assert(r1.len() <= r2.len() <= r3.len() <= r4.len() <= reasons.len());
    if !found.heading_present {
        assert(reasons[0] == "missing section heading"@);
        lemma_told(reasons, 0);
    }
    if found.word_count < found.minimum_word_count {
        assert(reasons[r2.len() - 1] == quality::too_short(
            found.word_count,
            found.minimum_word_count,
        ));
        lemma_told(reasons, r2.len() - 1);
    }
    if found.citation_mentions < found.minimum_citations {
        assert(reasons[r3.len() - 1] == quality::too_few_citations(
            found.citation_mentions,
            found.minimum_citations,
        ));
        lemma_told(reasons, r3.len() - 1);
    }
    if found.bullet_lines > 0 {
        let t = quality::holds_bullets(found.bullet_lines);
        assert(reasons[r4.len() - 1] == t);
        lemma_told(reasons, r4.len() - 1);
        finding::lemma_holds_through(told, t, " bullet/outline lines"@);
    }
    assert forall|i: int, h: Seq<char>|
        0 <= i < pieces::lines(section).len() && #[trigger] outline::line_holds(
            pieces::lines(section)[i],
            h,
        ) implies text::contains(told, "contains meta/outlining markers: "@) && text::contains(
        told,
        h,
    ) by {
        let line = pieces::lines(section)[i];
        assert(outline::hits(section).contains(h));
        assert(reasons[reasons.len() - 1] == marks);
        lemma_told(reasons, reasons.len() - 1);
        lemma_joined_holds(found.banned_phrase_hits, ", "@, h);
        finding::lemma_holds_through(told, marks, "contains meta/outlining markers: "@);
        finding::lemma_holds_through(told, marks, h);
    }
}

/// Each gate that a part of a section fails is told among the reasons.
#[verifier::rlimit(40)]
pub proof fn law_every_failed_gate_of_a_part_is_told(fragment: Seq<char>, p: PartView)
    ensures
        ({
            let told = quality::reasons_text(quality::part_assessment(fragment, p).reasons());
            let words = quality::word_count(fragment);
            let cited = quality::citations(fragment);
            &&& words < p.target_words * 30 / 100 ==> text::contains(
                told,
                "too short ("@ + numbers::decimal(words as nat) + " words, need at least "@
                    + numbers::decimal((p.target_words * 30 / 100) as nat) + ")"@,
            )
            &&& cited < p.minimum_citations ==> text::contains(
                told,
                "too few citations ("@ + numbers::decimal(cited as nat) + " found, need at least "@
                    + numbers::decimal(p.minimum_citations as nat) + ")"@,
            )
            &&& has_list(fragment) ==> text::contains(told, " bullet/outline lines"@)
            &&& forall|i: int, h: Seq<char>|
                0 <= i < pieces::lines(fragment).len() && #[trigger] outline::line_holds(
                    pieces::lines(fragment)[i],
                    h,
                ) ==> text::contains(told, "contains meta/outlining markers: "@)
                    && text::contains(told, h)
        }),
{
    let found = quality::part_assessment(fragment, p);
    let reasons = found.reasons();
    let told = quality::reasons_text(reasons);
    lemma_clean(fragment);
    outline::law_hits_are_what_the_lines_hold(fragment);
    let r2 = quality::with_reason(
        seq![],
        found.word_count < found.minimum_word_count,
        quality::too_short(found.word_count, found.minimum_word_count),
    );
    let r3 = quality::with_reason(
        r2,
        found.citation_mentions < found.minimum_citations,
        quality::too_few_citations(found.citation_mentions, found.minimum_citations),
    );
    let r4 = quality::with_reason(
        r3,
        found.bullet_lines > 0,
        quality::holds_bullets(found.bullet_lines),
    );
    let marks = quality::holds_markers(found.banned_phrase_hits);
    assert(r2.len() <= r3.len() <= r4.len() <= reasons.len());
    if found.word_count < found.minimum_word_count {
        assert(reasons[0] == quality::too_short(found.word_count, found.minimum_word_count));
        lemma_told(reasons, 0);
    }
    if found.citation_mentions < found.minimum_citations {
        assert(reasons[r3.len() - 1] == quality::too_few_citations(
            found.citation_mentions,
            found.minimum_citations,
        ));
        lemma_told(reasons, r3.len() - 1);
    }
    if found.bullet_lines > 0 {
        let t = quality::holds_bullets(found.bullet_lines);
        assert(reasons[r4.len() - 1] == t);
        lemma_told(reasons, r4.len() - 1);
        finding::lemma_holds_through(told, t, " bullet/outline lines"@);
    }
    assert forall|i: int, h: Seq<char>|
        0 <= i < pieces::lines(fragment).len() && #[trigger] outline::line_holds(
            pieces::lines(fragment)[i],
            h,
        ) implies text::contains(told, "contains meta/outlining markers: "@) && text::contains(
        told,
        h,
    ) by {
        let line = pieces::lines(fragment)[i];
        assert(outline::hits(fragment).contains(h));
        assert(reasons[reasons.len() - 1] == marks);
        lemma_told(reasons, reasons.len() - 1);
        lemma_joined_holds(found.banned_phrase_hits, ", "@, h);
        finding::lemma_holds_through(told, marks, "contains meta/outlining markers: "@);
        finding::lemma_holds_through(told, marks, h);
    }
}

// Revision

/// Of a complete report those sections are revised that fail a gate of their own; where the report
/// is too short or too thinly cited, also those that fall short of their own length or citations. If
/// there is none of them, all are.
pub proof fn law_weak_sections_are_revised(
    list: Seq<SectionView>,
    blueprints: Seq<BlueprintView>,
    q: QualityView,
    i: int,
)
    requires
        list.len() == blueprints.len(),
        0 <= i < list.len(),
    ensures
        ({
            let targets = quality::revision_targets(list, blueprints, q);
            let t = list[i].content;
            let b = blueprints[i];
            let fails = !text::contains(t, "## "@ + b.heading) || quality::word_count(t)
                < b.target_words * 20 / 100 || quality::citations(t) < b.minimum_citations
                || !is_clean(t);
            let falls_short = (!q.minimum_word_count_met || !q.citation_target_met) && (
            list[i].actual_words < b.target_words || quality::citations(t) < b.minimum_citations);
            &&& fails || falls_short ==> targets.contains(i)
            &&& targets.contains(i) ==> fails || falls_short || targets.len() == list.len()
        }),
{
    let n = list.len() as int;
    quality::law_revision_targets(list, blueprints, q);
    lemma_clean(list[i].content);
    let targets = quality::revision_targets(list, blueprints, q);
    let weak = quality::weak_sections(list, blueprints, q, n);
    lemma_weak(list, blueprints, q, n);
    if quality::needs_revision(list, blueprints, q, i) {
        assert(targets.contains(i));
    }
    if targets.contains(i) && weak.len() > 0 {
        let k = choose|k: int| 0 <= k < weak.len() && weak[k] == i;
        assert(quality::needs_revision(list, blueprints, q, weak[k]));
    }
}

proof fn lemma_weak(
    list: Seq<SectionView>,
    blueprints: Seq<BlueprintView>,
    q: QualityView,
    n: int,
)
    ensures
        forall|k: int|
            0 <= k < quality::weak_sections(list, blueprints, q, n).len()
                ==> quality::needs_revision(
                list,
                blueprints,
                q,
                #[trigger] quality::weak_sections(list, blueprints, q, n)[k],
            ),
    decreases n,
{
    if n > 0 {
        lemma_weak(list, blueprints, q, n - 1);
        let front = quality::weak_sections(list, blueprints, q, n - 1);
        let all = quality::weak_sections(list, blueprints, q, n);
        assert forall|k: int| 0 <= k < all.len() implies quality::needs_revision(
            list,
            blueprints,
            q,
            #[trigger] all[k],
        ) by {
            if k < front.len() {
                assert(all[k] == front[k]);
            }
        }
    }
}

/// A model is told why a section is revised: what the section itself fails, and what the report as a
/// whole lacks.
pub proof fn law_revision_reasons(section: SectionView, b: BlueprintView, q: QualityView)
    ensures
        ({
            let own = quality::reasons_text(quality::assessment(section.content, b).reasons());
            let told = quality::reasons_text(quality::revision_reasons(section, b, q));
            &&& text::contains(told, own)
            &&& !q.minimum_word_count_met ==> text::contains(
                told,
                "the overall paper is still too short and this section must be expanded substantially"@,
            )
            &&& !q.citation_target_met ==> text::contains(
                told,
                "the overall paper needs more in-text citations, so this section should cite evidence more often"@,
            )
            &&& !q.prose_only ==> text::contains(
                told,
                "the overall paper still contains outline/meta language and this section must read as clean final prose"@,
            )
        }),
{
    let own = quality::reasons_text(quality::assessment(section.content, b).reasons());
    let reasons = quality::revision_reasons(section, b, q);
    let told = quality::reasons_text(reasons);
    let short =
        "the overall paper is still too short and this section must be expanded substantially"@;
    let thin =
        "the overall paper needs more in-text citations, so this section should cite evidence more often"@;
    let notes =
        "the overall paper still contains outline/meta language and this section must read as clean final prose"@;
    let r1 = quality::with_reason(seq![], own.len() > 0, own);
    let r2 = quality::with_reason(r1, !q.minimum_word_count_met, short);
    let r3 = quality::with_reason(r2, !q.citation_target_met, thin);
    assert(r1.len() <= r2.len() <= r3.len() <= reasons.len());
    if own.len() > 0 {
        assert(reasons[0] == own);
        lemma_told(reasons, 0);
    } else {
        assert(told.subrange(0, 0) =~= own);
        assert(text::occurs_at(told, own, 0));
    }
    if !q.minimum_word_count_met {
        assert(reasons[r2.len() - 1] == short);
        lemma_told(reasons, r2.len() - 1);
    }
    if !q.citation_target_met {
        assert(reasons[r3.len() - 1] == thin);
        lemma_told(reasons, r3.len() - 1);
    }
    if !q.prose_only {
        assert(reasons[reasons.len() - 1] == notes);
        lemma_told(reasons, reasons.len() - 1);
    }
}

} // verus!
