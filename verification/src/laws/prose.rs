//! Prose: what becomes of a model's text on its way into a report.

use crate::bytes;
use crate::chars;
use crate::excerpt;
use crate::laws::finding;
use crate::laws::texts;
use crate::models::ReferenceStyle;
use crate::outline;
use crate::pieces;
use crate::sections;
use crate::text;
use crate::trim;
use vstd::prelude::*;

verus! {

// Fences

proof fn lemma_no_fence(t: Seq<char>)
    requires
        !text::contains(t, "```"@),
    ensures
        sections::without_fences(t) == trim::trim(t),
{
    reveal_strlit("```markdown");
    reveal_strlit("```json");
    reveal_strlit("```");
    lemma_holds_fence(t, "```markdown"@);
    lemma_holds_fence(t, "```json"@);
    texts::law_nothing_to_replace(t, "```markdown"@, ""@);
    texts::law_nothing_to_replace(t, "```json"@, ""@);
    texts::law_nothing_to_replace(t, "```"@, ""@);
}

proof fn lemma_holds_fence(t: Seq<char>, longer: Seq<char>)
    requires
        !text::contains(t, "```"@),
        longer.len() >= 3,
        longer[0] == '`' && longer[1] == '`' && longer[2] == '`',
    ensures
        !text::contains(t, longer),
{
    reveal_strlit("```");
    if text::contains(t, longer) {
        let i = choose|i: int| text::occurs_at(t, longer, i);
        let found = t.subrange(i, i + longer.len());
        assert(found[0] == '`' && found[1] == '`' && found[2] == '`');
        assert(t.subrange(i, i + 3) =~= "```"@);
        assert(text::occurs_at(t, "```"@, i));
    }
}

/// A text in a markdown fence is taken without the fence, and a text without one stays but for
/// white space at its ends.
pub proof fn law_fences_are_dropped(t: Seq<char>)
    requires
        !text::contains(t, "```"@),
    ensures
        sections::without_fences("```markdown\n"@ + t + "\n```"@) == trim::trim(t),
        sections::without_fences(t) == trim::trim(t),
{
    lemma_no_fence(t);
    reveal_strlit("```markdown\n");
    reveal_strlit("```markdown");
    reveal_strlit("```json");
    reveal_strlit("\n```");
    reveal_strlit("```");
    reveal_strlit("");
    let from = "```markdown"@;
    let fence = "```"@;
    let s = "```markdown\n"@ + t + "\n```"@;
    let rest = seq!['\n'] + t + "\n```"@;
    assert(s =~= from + rest);
    assert(s.subrange(0, 11) =~= from);
    assert(text::occurs_at(s, from, 0));
    texts::law_first_is_replaced(s, from, ""@, 0);
    assert(s.skip(11) =~= rest);
    let end = (t.len() + 2) as int;
    lemma_one_fence(t);
    lemma_longer_fences(rest, end);
    assert(from.subrange(0, 3) =~= fence);
    assert("```json"@.subrange(0, 3) =~= fence);
    texts::law_nothing_to_replace(rest, from, ""@);
    texts::law_nothing_to_replace(rest, "```json"@, ""@);
    assert(s.take(0) + ""@ + rest =~= rest);
    assert(rest.subrange(end, end + 3) =~= fence);
    assert(text::occurs_at(rest, fence, end));
    texts::law_first_is_replaced(rest, fence, ""@, end);
    assert(rest.skip(end + 3) =~= Seq::<char>::empty());
    let left = seq!['\n'] + t + seq!['\n'];
    assert(rest.take(end) + ""@ + Seq::<char>::empty() =~= left);
    lemma_trim_around(t);
}

/// The same holds of a text in a JSON fence or in one without a name.
pub proof fn law_other_fences_are_dropped(t: Seq<char>)
    requires
        !text::contains(t, "```"@),
    ensures
        sections::without_fences("```json\n"@ + t + "\n```"@) == trim::trim(t),
        sections::without_fences("```\n"@ + t + "\n```"@) == trim::trim(t),
{
    reveal_strlit("```json\n");
    reveal_strlit("```\n");
    reveal_strlit("```markdown");
    reveal_strlit("```json");
    reveal_strlit("\n```");
    reveal_strlit("```");
    reveal_strlit("");
    let fence = "```"@;
    let json = "```json"@;
    let markdown = "```markdown"@;
    let rest = seq!['\n'] + t + "\n```"@;
    let end = (t.len() + 2) as int;
    lemma_one_fence(t);
    lemma_longer_fences(rest, end);
    assert(markdown.subrange(0, 3) =~= fence);
    assert(json.subrange(0, 3) =~= fence);
    texts::law_nothing_to_replace(rest, markdown, ""@);
    texts::law_nothing_to_replace(rest, json, ""@);
    assert(rest.subrange(end, end + 3) =~= fence);
    assert(text::occurs_at(rest, fence, end));
    texts::law_first_is_replaced(rest, fence, ""@, end);
    assert(rest.skip(end + 3) =~= Seq::<char>::empty());
    assert(rest.take(end) + ""@ + Seq::<char>::empty() =~= seq!['\n'] + t + seq!['\n']);
    lemma_trim_around(t);
    let named = "```json\n"@ + t + "\n```"@;
    assert(named =~= json + rest);
    lemma_not_behind(named, markdown, json, rest);
    texts::law_nothing_to_replace(named, markdown, ""@);
    assert(named.subrange(0, 7) =~= json);
    assert(text::occurs_at(named, json, 0));
    texts::law_first_is_replaced(named, json, ""@, 0);
    assert(named.skip(7) =~= rest);
    assert(named.take(0) + ""@ + rest =~= rest);
    let bare = "```\n"@ + t + "\n```"@;
    assert(bare =~= fence + rest);
    lemma_not_behind(bare, markdown, fence, rest);
    lemma_not_behind(bare, json, fence, rest);
    texts::law_nothing_to_replace(bare, markdown, ""@);
    texts::law_nothing_to_replace(bare, json, ""@);
    assert(bare.subrange(0, 3) =~= fence);
    assert(text::occurs_at(bare, fence, 0));
    texts::law_first_is_replaced(bare, fence, ""@, 0);
    assert(bare.skip(3) =~= rest);
    let left = pieces::replace(rest, fence, ""@);
    assert(bare.take(0) + ""@ + left =~= left);
}

/// In a text between line breaks with a fence behind it the fence stands only there.
proof fn lemma_one_fence(t: Seq<char>)
    requires
        !text::contains(t, "```"@),
    ensures
        forall|i: int|
            text::occurs_at(seq!['\n'] + t + "\n```"@, "```"@, i) ==> i == t.len() + 2,
{
    reveal_strlit("\n```");
    reveal_strlit("```");
    let fence = "```"@;
    let rest = seq!['\n'] + t + "\n```"@;
    let end = (t.len() + 2) as int;
    assert forall|i: int| text::occurs_at(rest, fence, i) implies i == end by {
        let found = rest.subrange(i, i + 3);
        assert(found[0] == '`' && found[1] == '`' && found[2] == '`');
        assert(rest[i] == '`' && rest[i + 1] == '`' && rest[i + 2] == '`');
        if i + 3 <= 1 + t.len() && i > 0 {
            assert(t.subrange(i - 1, i + 2) =~= fence);
            assert(text::occurs_at(t, fence, i - 1));
        } else if i < end {
            assert(rest[t.len() as int + 1] == '\n');
            assert(rest[0] == '\n');
        }
    }
}

/// Where a fence stands only at the end of a text no longer one stands in it.
proof fn lemma_longer_fences(rest: Seq<char>, end: int)
    requires
        rest.len() == end + 3,
        forall|i: int| text::occurs_at(rest, "```"@, i) ==> i == end,
    ensures
        forall|longer: Seq<char>|
            longer.len() > 3 && longer.subrange(0, 3) == "```"@ ==> !#[trigger] text::contains(
                rest,
                longer,
            ),
{
    reveal_strlit("```");
    let fence = "```"@;
    assert forall|longer: Seq<char>|
        longer.len() > 3 && longer.subrange(0, 3) == fence implies !#[trigger] text::contains(
        rest,
        longer,
    ) by {
        if text::contains(rest, longer) {
            let i = choose|i: int| text::occurs_at(rest, longer, i);
            assert(rest.subrange(i, i + 3) =~= rest.subrange(i, i + longer.len()).subrange(0, 3));
            assert(text::occurs_at(rest, fence, i));
        }
    }
}

/// A longer fence than the one that opens a text does not stand in it.
proof fn lemma_not_behind(s: Seq<char>, longer: Seq<char>, open: Seq<char>, rest: Seq<char>)
    requires
        s == open + rest,
        open == "```json"@ && longer == "```markdown"@ || open == "```"@ && (longer == "```markdown"@
            || longer == "```json"@),
        !text::contains(rest, longer),
        rest.len() > 0,
        rest[0] == '\n',
    ensures
        !text::contains(s, longer),
{
    reveal_strlit("```markdown");
    reveal_strlit("```json");
    reveal_strlit("```");
    if text::contains(s, longer) {
        let i = choose|i: int| text::occurs_at(s, longer, i);
        let found = s.subrange(i, i + longer.len());
        assert(found[0] == '`' && found[1] == '`' && found[2] == '`' && found[3] == longer[3]);
        let n = open.len() as int;
        if i >= n {
            assert(rest.subrange(i - n, i - n + longer.len()) =~= found);
            assert(text::occurs_at(rest, longer, i - n));
        } else {
            assert(s[i] == '`' && s[i + 1] == '`' && s[i + 2] == '`' && s[i + 3] == longer[3]);
            assert(s[n] == '\n');
            assert(forall|k: int| 0 <= k < n ==> s[k] == open[k]);
        }
    }
}

proof fn lemma_trim_around(t: Seq<char>)
    ensures
        trim::trim(seq!['\n'] + t + seq!['\n']) == trim::trim(t),
{
    let left = seq!['\n'] + t + seq!['\n'];
    let back = t + seq!['\n'];
    assert(left.skip(1) =~= back);
    assert(left[0] == '\n');
    assert(trim::trim_start(left) == trim::trim_start(back));
    assert(back.drop_last() =~= t);
    assert(back.last() == '\n');
    assert(trim::trim_end(back) == trim::trim_end(t));
    trim::lemma_trim_after_trim_end(back);
    trim::lemma_trim_after_trim_end(t);
}

// Sections

/// A section's text stands under its heading: a text that opens with the heading stays, one that
/// repeats it in another form loses that form, and every other text is kept whole.
pub proof fn law_texts_stand_under_their_heading(t: Seq<char>, heading: Seq<char>)
    requires
        trim::is_trimmed(t),
        !text::contains(t, "```"@),
    ensures
        ({
            let line = "## "@ + heading;
            let r = sections::normalized(t, heading);
            &&& line.is_prefix_of(r)
            &&& line.is_prefix_of(t) ==> r == t
            &&& !line.is_prefix_of(t) && heading.is_prefix_of(t) ==> r == line + "\n\n"@
                + trim::trim(t.skip(heading.len() as int))
            &&& !line.is_prefix_of(t) && !heading.is_prefix_of(t) && ("# "@
                + heading).is_prefix_of(t) ==> r == line + "\n\n"@ + trim::trim(
                t.skip(heading.len() as int + 2),
            )
            &&& !line.is_prefix_of(t) && !heading.is_prefix_of(t) && !("# "@
                + heading).is_prefix_of(t) ==> r == line + "\n\n"@ + t
        }),
{
    lemma_no_fence(t);
    trim::lemma_trimmed_is_fixed(t);
    sections::law_normalized_opens_with_heading(t, heading);
    reveal_strlit("# ");
    assert(("# "@ + heading).len() == heading.len() + 2);
    lemma_trim_of_trim_start(t.skip(heading.len() as int));
    lemma_trim_of_trim_start(t.skip(heading.len() as int + 2));
}

proof fn lemma_trim_of_trim_start(t: Seq<char>)
    ensures
        trim::trim(trim::trim_start(t)) == trim::trim(t),
{
    trim::lemma_trim_start(t);
    let s = trim::trim_start(t);
    assert(trim::trim_start(s) == s);
}

/// References stand under the heading of their style: a text that opens with it stays, and every
/// other is kept whole.
pub proof fn law_references_stand_under_their_heading(t: Seq<char>, style: ReferenceStyle)
    requires
        trim::is_trimmed(t),
        !text::contains(t, "```"@),
    ensures
        ({
            let line = "## "@ + style.heading();
            let r = sections::references(t, style);
            &&& line.is_prefix_of(t) ==> r == t
            &&& !line.is_prefix_of(t) ==> r == line + "\n\n"@ + t
        }),
{
    lemma_no_fence(t);
    trim::lemma_trimmed_is_fixed(t);
}

/// The text below a section's heading is its body.
pub proof fn law_bodies_stand_below_headings(heading: Seq<char>, t: Seq<char>)
    requires
        heading.len() > 0,
        trim::is_trimmed(heading),
        !heading.contains('\n'),
        t.len() > 0,
        t.last() != '\n',
        !t.contains('\r'),
    ensures
        sections::body("## "@ + heading + "\n\n"@ + t, "\n"@) == "\n"@ + t,
{
    reveal_strlit("## ");
    reveal_strlit("\n\n");
    reveal_strlit("\n");
    let line = "## "@ + heading;
    let s = line + "\n\n"@ + t;
    let behind = seq!['\n'] + t;
    assert(!line.contains('\n')) by {
        if line.contains('\n') {
            let i = choose|i: int| 0 <= i < line.len() && line[i] == '\n';
            if i >= 3 {
                assert(heading[i - 3] == '\n');
            }
        }
    }
    assert(s =~= line + seq!['\n'] + behind);
    texts::law_lines_come_apart(line, behind);
    let none = Seq::<char>::empty();
    texts::law_lines_come_apart(none, t);
    assert(none + seq!['\n'] + t =~= behind);
    let first = pieces::without_return(line);
    let ls = pieces::lines(s);
    assert(ls =~= seq![first, none] + pieces::lines(t));
    assert(line.last() == heading.last());
    assert(first == line) by {
        if line.last() == '\r' {
            assert(chars::is_white('\r'));
        }
    }
    assert(!chars::is_white(line[0]) && !chars::is_white(line.last()));
    trim::lemma_trimmed_is_fixed(line);
    assert("## "@.is_prefix_of(line)) by {
        assert(line.subrange(0, 3) =~= "## "@);
    }
    assert(ls.skip(1) =~= seq![none] + pieces::lines(t));
    assert(trim::trim(none) =~= none);
    assert(!"## "@.is_prefix_of(none));
    reveal_with_fuel(sections::below_headings, 3);
    assert(sections::below_headings(ls) == seq![none] + pieces::lines(t));
    texts::law_lines_join_back(t);
    texts::lemma_join_first(none, pieces::lines(t), "\n"@);
    assert(none + "\n"@ + t =~= "\n"@ + t);
}

/// A short section of one line is shown as it is, without its heading.
pub proof fn law_short_sections_are_shown(heading: Seq<char>, t: Seq<char>, max: int)
    requires
        heading.len() > 0,
        trim::is_trimmed(heading),
        !heading.contains('\n'),
        t.len() > 0,
        trim::is_trimmed(t),
        !t.contains('\n'),
        bytes::byte_len(t) <= max,
    ensures
        sections::preview("## "@ + heading + "\n\n"@ + t, max) == t,
{
    reveal_strlit("## ");
    reveal_strlit("\n\n");
    reveal_strlit(" ");
    let line = "## "@ + heading;
    let s = line + "\n\n"@ + t;
    let behind = seq!['\n'] + t;
    assert(!line.contains('\n')) by {
        if line.contains('\n') {
            let i = choose|i: int| 0 <= i < line.len() && line[i] == '\n';
            if i >= 3 {
                assert(heading[i - 3] == '\n');
            }
        }
    }
    assert(s =~= line + seq!['\n'] + behind);
    texts::law_lines_come_apart(line, behind);
    let none = Seq::<char>::empty();
    texts::law_lines_come_apart(none, t);
    texts::law_lines_come_apart(t, none);
    assert(none + seq!['\n'] + t =~= behind);
    let ls = pieces::lines(s);
    assert(line.last() == heading.last());
    assert(line.last() != '\r');
    assert(ls =~= seq![line, none, t]);
    assert(!chars::is_white(line[0]) && !chars::is_white(line.last()));
    trim::lemma_trimmed_is_fixed(line);
    assert("## "@.is_prefix_of(line)) by {
        assert(line.subrange(0, 3) =~= "## "@);
    }
    assert(ls.skip(1) =~= seq![none, t]);
    assert(trim::trim(none) =~= none);
    assert(!"## "@.is_prefix_of(none));
    reveal_with_fuel(sections::below_headings, 3);
    assert(sections::below_headings(ls) == seq![none, t]);
    assert(seq![none, t].drop_last() =~= seq![none]);
    reveal_with_fuel(pieces::join, 2);
    let b = none + " "@ + t;
    assert(pieces::join(seq![none, t], " "@) == b);
    trim::lemma_trimmed_is_fixed(t);
    assert(b[0] == ' ');
    assert(b.skip(1) =~= t);
    assert(trim::trim_start(b) == trim::trim_start(t));
}

/// A section that is prose under its heading stays as it is.
pub proof fn law_sections_of_prose_stay(heading: Seq<char>, t: Seq<char>)
    requires
        heading.len() > 0,
        trim::is_trimmed(heading),
        !heading.contains('\n'),
        t.len() > 0,
        trim::is_trimmed(t),
        !t.contains('\r'),
        !text::contains("## "@ + heading + "\n\n"@ + t, "```"@),
        outline::is_prose("\n"@ + t),
    ensures
        sections::section_prose("## "@ + heading + "\n\n"@ + t, heading) == "## "@ + heading
            + "\n\n"@ + t,
{
    let s = "## "@ + heading + "\n\n"@ + t;
    reveal_strlit("## ");
    reveal_strlit("\n");
    assert(s[0] == '#');
    assert(s.last() == t.last());
    assert(t.last() != '\n');
    assert(("## "@ + heading).is_prefix_of(s)) by {
        let line = "## "@ + heading;
        assert(s.subrange(0, line.len() as int) =~= line);
    }
    law_texts_stand_under_their_heading(s, heading);
    law_bodies_stand_below_headings(heading, t);
    trim::lemma_trimmed_is_fixed(t);
    let b = "\n"@ + t;
    assert(b[0] == '\n');
    assert(b.skip(1) =~= t);
    assert(trim::trim_start(b) == trim::trim_start(t));
}

/// The parts of a section stand in it in their order, under its heading; a part with nothing in it is
/// left out.
pub proof fn law_parts_are_assembled_in_order(
    heading: Seq<char>,
    parts: Seq<Seq<char>>,
    t: Seq<char>,
)
    ensures
        ("## "@ + heading).is_prefix_of(sections::assembled(heading, parts)),
        finding::stand_in_order(sections::assembled(heading, parts), sections::contents(parts)),
        trim::trim(t).len() > 0 ==> sections::contents(parts.push(t)) == sections::contents(
            parts,
        ).push(trim::trim(t)),
        trim::trim(t).len() == 0 ==> sections::contents(parts.push(t)) == sections::contents(parts),
        sections::contents(Seq::empty()).len() == 0,
{
    let list = sections::contents(parts);
    let body = pieces::join(list, "\n\n"@);
    finding::lemma_order_of_join(list, "\n\n"@);
    let line = "## "@ + heading;
    let s = sections::assembled(heading, parts);
    assert(s.subrange(0, line.len() as int) =~= line);
    if body.len() > 0 {
        finding::lemma_order_shifts(line + "\n\n"@, body, list);
    } else {
        finding::lemma_order_shifts(line, body, list);
        assert(line + body =~= line);
    }
    assert(parts.push(t).drop_last() =~= parts);
}

/// Whether a line of a part is a heading of its own.
pub open spec fn is_heading(line: Seq<char>) -> bool {
    let t = trim::trim(line);
    ||| t.len() > 0 && t[0] == '#'
    ||| "section:"@.is_prefix_of(chars::lowercase(t))
    ||| "subsection:"@.is_prefix_of(chars::lowercase(t))
}

proof fn lemma_kept_lines(ls: Seq<Seq<char>>)
    requires
        forall|i: int| 0 <= i < ls.len() ==> !is_heading(#[trigger] ls[i]),
    ensures
        ls.filter(sections::part_line_test()) == ls,
{
    reveal_strlit("#");
    assert forall|i: int| 0 <= i < ls.len() implies (sections::part_line_test())(
        #[trigger] ls[i],
    ) by {
        let t = trim::trim(ls[i]);
        if "#"@.is_prefix_of(t) {
            assert(t.subrange(0, 1)[0] == "#"@[0]);
        }
    }
    excerpt::lemma_filter_all(ls, sections::part_line_test());
}

/// A part without headings stays as it is, and a heading above it is dropped.
pub proof fn law_parts_lose_their_headings(line: Seq<char>, t: Seq<char>)
    requires
        t.len() > 0,
        trim::is_trimmed(t),
        !t.contains('\r'),
        !text::contains(t, "```"@),
        forall|i: int| 0 <= i < pieces::lines(t).len() ==> !is_heading(#[trigger] pieces::lines(t)[i]),
    ensures
        sections::part(t) == t,
        line.len() > 0 && trim::is_trimmed(line) && !line.contains('\n') && is_heading(line)
            && !text::contains(line + seq!['\n'] + t, "```"@) ==> sections::part(
            line + seq!['\n'] + t,
        ) == t,
{
    let ls = pieces::lines(t);
    lemma_no_fence(t);
    trim::lemma_trimmed_is_fixed(t);
    lemma_kept_lines(ls);
    assert(t.last() != '\n');
    texts::law_lines_join_back(t);
    let s = line + seq!['\n'] + t;
    if line.len() > 0 && trim::is_trimmed(line) && !line.contains('\n') && is_heading(line)
        && !text::contains(s, "```"@) {
        lemma_no_fence(s);
        assert(s[0] == line[0] && s.last() == t.last());
        trim::lemma_trimmed_is_fixed(s);
        texts::law_lines_come_apart(line, t);
        assert(line.last() != '\r');
        let all = pieces::lines(s);
        assert(all =~= seq![line] + ls);
        let p = sections::part_line_test();
        reveal_strlit("#");
        trim::lemma_trimmed_is_fixed(line);
        assert(!p(line)) by {
            if line[0] == '#' {
                assert(line.subrange(0, 1) =~= "#"@);
            }
        }
        lemma_filter_front(line, ls, p);
    }
}

proof fn lemma_filter_front(x: Seq<char>, list: Seq<Seq<char>>, p: spec_fn(Seq<char>) -> bool)
    requires
        !p(x),
    ensures
        (seq![x] + list).filter(p) == list.filter(p),
    decreases list.len(),
{
    reveal(Seq::filter);
    let all = seq![x] + list;
    if list.len() == 0 {
        assert(all.drop_last() =~= Seq::empty());
        assert(all.last() == x);
        assert(all.drop_last().filter(p) =~= Seq::empty());
    } else {
        assert(all.drop_last() =~= seq![x] + list.drop_last());
        assert(all.last() == list.last());
        lemma_filter_front(x, list.drop_last(), p);
    }
}

// Outlines

/// The sentences of lines: of each line that says something one, in order.
pub open spec fn sentences(ls: Seq<Seq<char>>) -> Seq<Seq<char>>
    decreases ls.len(),
{
    if ls.len() == 0 {
        seq![]
    } else {
        let s = outline::sentence(ls.last());
        if s.len() == 0 {
            sentences(ls.drop_last())
        } else {
            sentences(ls.drop_last()).push(s)
        }
    }
}

/// A text with no white space at its ends, and with something in it.
spec fn is_firm(t: Seq<char>) -> bool {
    t.len() > 0 && !chars::is_white(t[0]) && !chars::is_white(t.last())
}

spec fn are_firm(list: Seq<Seq<char>>) -> bool {
    forall|i: int| 0 <= i < list.len() ==> is_firm(#[trigger] list[i])
}

proof fn lemma_sentence_is_firm(line: Seq<char>)
    ensures
        outline::sentence(line).len() > 0 ==> is_firm(outline::sentence(line)),
{
    let x = outline::without_label(outline::without_bullet(trim::trim(line)));
    let t = trim::trim(x);
    trim::lemma_trim(x);
    if outline::sentence(line).len() > 0 && !outline::ends_sentence(t.last()) {
        assert(t.push('.')[0] == t[0]);
        assert(t.push('.').last() == '.');
    }
}

proof fn lemma_join_is_firm(list: Seq<Seq<char>>, sep: Seq<char>)
    requires
        are_firm(list),
        list.len() > 0,
    ensures
        is_firm(pieces::join(list, sep)),
    decreases list.len(),
{
    if list.len() == 1 {
        assert(is_firm(list[0]));
    } else {
        let front = list.drop_last();
        assert forall|i: int| 0 <= i < front.len() implies is_firm(#[trigger] front[i]) by {
            assert(front[i] == list[i]);
        }
        lemma_join_is_firm(front, sep);
        let j = pieces::join(front, sep) + sep + list.last();
        assert(is_firm(list[list.len() - 1]));
        assert(j[0] == pieces::join(front, sep)[0]);
        assert(j.last() == list.last().last());
    }
}

proof fn lemma_gathered(ls: Seq<Seq<char>>)
    ensures
        ({
            let g = outline::gather(ls);
            &&& are_firm(g.done)
            &&& are_firm(g.open)
            &&& finding::stand_in_order(pieces::join(g.closed().done, "\n\n"@), sentences(ls))
            &&& sentences(ls).len() > 0 ==> g.closed().done.len() > 0
            &&& are_firm(sentences(ls))
        }),
    decreases ls.len(),
{
    let g = outline::gather(ls);
    if ls.len() == 0 {
        finding::lemma_none_in_order(pieces::join(g.closed().done, "\n\n"@));
        assert(sentences(ls) =~= Seq::empty());
    } else {
        let h = outline::gather(ls.drop_last());
        let s = outline::sentence(ls.last());
        let said = sentences(ls.drop_last());
        lemma_gathered(ls.drop_last());
        lemma_sentence_is_firm(ls.last());
        let before = pieces::join(h.closed().done, "\n\n"@);
        if s.len() == 0 {
            assert(g == h.closed());
            assert(g.closed() == g);
            if h.open.len() > 0 {
                lemma_join_is_firm(h.open, " "@);
            }
        } else {
            assert(g.done == h.done && g.open == h.open.push(s));
            pieces::lemma_join_push(h.open, " "@, s);
            let para = pieces::join(g.open, " "@);
            pieces::lemma_join_push(h.done, "\n\n"@, para);
            let after = pieces::join(g.closed().done, "\n\n"@);
            if h.open.len() > 0 {
                let old = pieces::join(h.open, " "@);
                pieces::lemma_join_push(h.done, "\n\n"@, old);
                finding::lemma_order_grows(before, said, " "@);
                finding::lemma_order_push(before + " "@, said, s);
                assert(after =~= before + " "@ + s);
            } else if h.done.len() > 0 {
                finding::lemma_order_grows(before, said, "\n\n"@);
                finding::lemma_order_push(before + "\n\n"@, said, s);
                assert(after =~= before + "\n\n"@ + s);
            } else {
                finding::lemma_order_push(before, said, s);
                assert(after =~= before + s);
            }
        }
    }
}

/// A text that is prose stays but for white space at its ends; of every other text each sentence
/// stands in what it becomes, in order.
pub proof fn law_sentences_are_kept_in_order(t: Seq<char>)
    ensures
        outline::is_prose(t) ==> outline::prose(t) == trim::trim(t),
        !outline::is_prose(t) ==> finding::stand_in_order(
            outline::prose(t),
            sentences(pieces::lines(t)),
        ),
{
    let ls = pieces::lines(t);
    let g = outline::gather(ls);
    let done = g.closed().done;
    lemma_gathered(ls);
    if g.open.len() > 0 {
        lemma_join_is_firm(g.open, " "@);
    }
    assert(are_firm(done));
    assert forall|i: int| 0 <= i < done.len() implies (outline::content_test())(
        #[trigger] done[i],
    ) by {
        assert(is_firm(done[i]));
        trim::lemma_trimmed_is_fixed(done[i]);
    }
    excerpt::lemma_filter_all(done, outline::content_test());
    let j = pieces::join(done, "\n\n"@);
    if done.len() > 0 {
        lemma_join_is_firm(done, "\n\n"@);
    }
    trim::lemma_trimmed_is_fixed(j);
}

/// A plain line becomes a sentence: a bullet in front of it is dropped, and where it does not end as a
/// sentence does it gets a full stop.
pub proof fn law_lines_become_sentences(t: Seq<char>)
    requires
        t.len() > 0,
        trim::is_trimmed(t),
        t[0] != '*',
        !outline::is_bullet(t),
        outline::marker_of(t) is None,
        !text::contains(t, ":"@),
        !outline::is_remark(chars::lowercase(t)),
    ensures
        ({
            let said = if t.last() == '.' || t.last() == '?' || t.last() == '!' {
                t
            } else {
                t.push('.')
            };
            &&& outline::sentence(t) == said
            &&& outline::sentence("- "@ + t) == said
            &&& outline::sentence("* "@ + t) == said
            &&& outline::sentence("• "@ + t) == said
        }),
{
    trim::lemma_trimmed_is_fixed(t);
    text::lemma_find(t, ":"@);
    reveal_strlit(":");
    if t.last() == ':' {
        assert(t.subrange(t.len() - 1, t.len() as int) =~= ":"@);
        assert(text::occurs_at(t, ":"@, t.len() - 1));
    }
    assert(outline::without_bullet(t) == t);
    assert(outline::without_label(t) == t);
    lemma_bullet_dropped("- "@, t);
    lemma_bullet_dropped("* "@, t);
    lemma_bullet_dropped("• "@, t);
}

proof fn lemma_bullet_dropped(b: Seq<char>, t: Seq<char>)
    requires
        b == "- "@ || b == "* "@ || b == "• "@,
        t.len() > 0,
        trim::is_trimmed(t),
    ensures
        outline::without_bullet(trim::trim(b + t)) == t,
{
    reveal_strlit("- ");
    reveal_strlit("* ");
    reveal_strlit("• ");
    let s = b + t;
    assert(b.len() == 2);
    assert(!chars::is_white(b[0]));
    assert(s[0] == b[0] && s.last() == t.last());
    trim::lemma_trimmed_is_fixed(s);
    assert(s.subrange(0, 2) =~= b);
    assert(b.is_prefix_of(s));
    assert(s.skip(2) =~= t);
}

/// Lines that say nothing end a paragraph, and the sentences of a paragraph stand in one line.
pub proof fn law_paragraphs(ls: Seq<Seq<char>>, line: Seq<char>)
    ensures
        ({
            let g = outline::gather(ls);
            let next = outline::gather(ls.push(line));
            let s = outline::sentence(line);
            &&& s.len() > 0 ==> next.done == g.done && next.open == g.open.push(s)
            &&& s.len() == 0 && g.open.len() > 0 ==> next.done == g.done.push(
                pieces::join(g.open, " "@),
            ) && next.open.len() == 0
            &&& s.len() == 0 && g.open.len() == 0 ==> next == g
        }),
{
    assert(ls.push(line).drop_last() =~= ls);
}

} // verus!
