//! Sections of a report as Markdown: their headings, their bodies and the parts they are made of.

use crate::chars;
use crate::excerpt;
use crate::models;
use crate::models::{ReferenceStyle, ResearchSection, SectionView};
use crate::outline;
use crate::pieces;
use crate::text;
use crate::trim;
use vstd::prelude::*;

verus! {

broadcast use text::lemma_views_push;

/// A reply without the code fences around or in it.
pub open spec fn without_fences(t: Seq<char>) -> Seq<char> {
    let a = pieces::replace(t, "```markdown"@, ""@);
    let b = pieces::replace(a, "```json"@, ""@);
    trim::trim(pieces::replace(b, "```"@, ""@))
}

/// Removes code fences, and white space at the ends.
pub fn strip_code_fences(t: &str) -> (r: String)
    ensures
        r@ == without_fences(t@),
{
    proof {
        reveal_strlit("```markdown");
        reveal_strlit("```json");
        reveal_strlit("```");
    }
    let a = pieces::replaced(t, "```markdown", "");
    let b = pieces::replaced(a.as_str(), "```json", "");
    let c = pieces::replaced(b.as_str(), "```", "");
    trim::trimmed(c.as_str())
}

/// The line that a section opens with.
pub open spec fn heading_line(heading: Seq<char>) -> Seq<char> {
    "## "@ + heading
}

/// The line that a section opens with.
pub fn heading_of(heading: &str) -> (r: String)
    ensures
        r@ == heading_line(heading@),
{
    let mut r = text::copy("## ");
    r.append(heading);
    r
}

/// A section: its heading, and its body where it has one.
pub open spec fn with_heading(heading: Seq<char>, body: Seq<char>) -> Seq<char> {
    if body.len() == 0 {
        heading_line(heading)
    } else {
        heading_line(heading) + "\n\n"@ + body
    }
}

fn put_heading(heading: &str, body: &str) -> (r: String)
    ensures
        r@ == with_heading(heading@, body@),
{
    let mut r = heading_of(heading);
    if !body.is_empty() {
        r.append("\n\n");
        r.append(body);
    }
    r
}

// Whole sections

/// A text without a heading in other form at its beginning.
pub open spec fn without_heading(t: Seq<char>, heading: Seq<char>) -> Seq<char> {
    match text::strip_prefix(t, heading) {
        Some(rest) => trim::trim_start(rest),
        None => match text::strip_prefix(t, "# "@ + heading) {
            Some(rest) => trim::trim_start(rest),
            None => t,
        },
    }
}

/// A drafted section under its heading.
pub open spec fn normalized(raw: Seq<char>, heading: Seq<char>) -> Seq<char> {
    let cleaned = trim::trim(without_fences(raw));
    if heading_line(heading).is_prefix_of(cleaned) {
        cleaned
    } else {
        heading_line(heading) + "\n\n"@ + trim::trim(without_heading(cleaned, heading))
    }
}

/// Puts a drafted section under its heading, unless it stands there already.
pub fn normalize_section_markdown(raw: &str, heading: &str) -> (r: String)
    ensures
        r@ == normalized(raw@, heading@),
{
    let bare = strip_code_fences(raw);
    let cleaned = trim::trimmed(bare.as_str());
    let mut expected = heading_of(heading);
    if text::starts_with(cleaned.as_str(), expected.as_str()) {
        return cleaned;
    }
    let mut other = text::copy("# ");
    other.append(heading);
    let body = match text::without_prefix(cleaned.as_str(), heading) {
        Some(rest) => trim::trimmed_start(rest.as_str()),
        None => match text::without_prefix(cleaned.as_str(), other.as_str()) {
            Some(rest) => trim::trimmed_start(rest.as_str()),
            None => cleaned,
        },
    };
    let trimmed = trim::trimmed(body.as_str());
    expected.append("\n\n");
    expected.append(trimmed.as_str());
    expected
}

/// A normalized section begins with its heading.
pub proof fn law_normalized_opens_with_heading(raw: Seq<char>, heading: Seq<char>)
    ensures
        heading_line(heading).is_prefix_of(normalized(raw, heading)),
{
    let cleaned = trim::trim(without_fences(raw));
    if !heading_line(heading).is_prefix_of(cleaned) {
        let r = normalized(raw, heading);
        assert(r.subrange(0, heading_line(heading).len() as int) =~= heading_line(heading));
    }
}

/// The lines that remain below the headings at the beginning.
pub open spec fn below_headings(ls: Seq<Seq<char>>) -> Seq<Seq<char>>
    decreases ls.len(),
{
    if ls.len() > 0 && "## "@.is_prefix_of(trim::trim(ls[0])) {
        below_headings(ls.skip(1))
    } else {
        ls
    }
}

/// The lines of a section below its heading, with `sep` between them.
pub open spec fn body(section: Seq<char>, sep: Seq<char>) -> Seq<char> {
    pieces::join(below_headings(pieces::lines(section)), sep)
}

/// The lines of a section below its heading, with `sep` between them.
fn body_of(section: &str, sep: &str) -> (r: String)
    ensures
        r@ == body(section@, sep@),
{
    let ls = pieces::lines_of(section);
    let ghost all = pieces::lines(section@);
    let mut i: usize = 0;
    assert(all.skip(0) == all);
    let mut more = true;
    while more && i < ls.len()
        invariant
            i <= ls@.len(),
            all == text::views(ls@),
            below_headings(all) == below_headings(all.skip(i as int)),
            !more ==> below_headings(all) == all.skip(i as int),
        decreases ls@.len() - i + (if more { 1int } else { 0int }),
    {
        let trimmed = trim::trimmed(ls[i].as_str());
        assert(all.skip(i as int)[0] == ls@[i as int]@);
        if text::starts_with(trimmed.as_str(), "## ") {
            assert(all.skip(i as int).skip(1) == all.skip(i + 1));
            i += 1;
        } else {
            more = false;
        }
    }
    assert(below_headings(all) == all.skip(i as int));
    let mut rest: Vec<String> = Vec::new();
    let mut k: usize = i;
    assert(text::views(rest@) =~= all.subrange(i as int, i as int));
    while k < ls.len()
        invariant
            i <= k <= ls@.len(),
            all == text::views(ls@),
            text::views(rest@) == all.subrange(i as int, k as int),
        decreases ls@.len() - k,
    {
        rest.push(text::copy(ls[k].as_str()));
        assert(text::views(rest@) =~= all.subrange(i as int, k + 1));
        k += 1;
    }
    assert(all.subrange(i as int, k as int) =~= all.skip(i as int));
    pieces::joined(&rest, sep)
}

/// Whether every line of a section that has to be rewritten can be.
pub open spec fn section_converts(section: Seq<char>, heading: Seq<char>) -> bool {
    outline::converts(body(normalized(section, heading), "\n"@))
}

/// A section whose notes have been turned into prose.
pub open spec fn section_prose(section: Seq<char>, heading: Seq<char>) -> Seq<char> {
    with_heading(heading, outline::prose(body(normalized(section, heading), "\n"@)))
}

/// Turns the notes of a section into prose under its heading.
pub fn convert_outline_section_to_prose(section: &str, heading: &str) -> (r: String)
    requires
        section_converts(section@, heading@),
    ensures
        r@ == section_prose(section@, heading@),
{
    let section_text = normalize_section_markdown(section, heading);
    let notes = body_of(section_text.as_str(), "\n");
    let cleaned = outline::convert_outline_fragment_to_prose(notes.as_str());
    put_heading(heading, cleaned.as_str())
}

/// Turns the notes of a section into prose under its heading, where every line can be rewritten.
pub fn try_convert_outline_section_to_prose(section: &str, heading: &str) -> (r: Option<String>)
    ensures
        r is Some <==> section_converts(section@, heading@),
        r matches Some(t) ==> t@ == section_prose(section@, heading@),
{
    let section_text = normalize_section_markdown(section, heading);
    let notes = body_of(section_text.as_str(), "\n");
    if outline::outline_converts(notes.as_str()) {
        Some(convert_outline_section_to_prose(section, heading))
    } else {
        None
    }
}

/// A section of prose begins with its heading.
pub proof fn law_prose_opens_with_heading(section: Seq<char>, heading: Seq<char>)
    ensures
        heading_line(heading).is_prefix_of(section_prose(section, heading)),
{
    let r = section_prose(section, heading);
    assert(r.subrange(0, heading_line(heading).len() as int) =~= heading_line(heading));
}

/// The beginning of a section's body on one line.
pub open spec fn preview(section: Seq<char>, max: int) -> Seq<char> {
    excerpt::truncated(trim::trim(body(section, " "@)), max)
}

/// The beginning of a section's body, on one line and of limited length.
pub fn section_body_preview(section_markdown: &str, max_len: usize) -> (r: String)
    ensures
        r@ == preview(section_markdown@, max_len as int),
{
    let joined = body_of(section_markdown, " ");
    let trimmed = trim::trimmed(joined.as_str());
    excerpt::truncate(trimmed.as_str(), max_len)
}

// Parts of sections

/// The lines of a drafted part that are not headings.
pub open spec fn part_line_test() -> spec_fn(Seq<char>) -> bool {
    |line: Seq<char>|
        {
            let t = trim::trim(line);
            &&& !"#"@.is_prefix_of(t)
            &&& !"section:"@.is_prefix_of(chars::lowercase(t))
            &&& !"subsection:"@.is_prefix_of(chars::lowercase(t))
        }
}

/// A drafted part without headings; all of it where nothing else remains.
pub open spec fn part(raw: Seq<char>) -> Seq<char> {
    let cleaned = without_fences(raw);
    let kept = trim::trim(
        pieces::join(pieces::lines(cleaned).filter(part_line_test()), "\n"@),
    );
    if kept.len() == 0 {
        trim::trim(cleaned)
    } else {
        kept
    }
}

/// Removes the headings from a drafted part.
pub fn normalize_section_part(raw: &str) -> (r: String)
    ensures
        r@ == part(raw@),
{
    let cleaned = strip_code_fences(raw);
    let ls = pieces::lines_of(cleaned.as_str());
    let ghost all = pieces::lines(cleaned@);
    let mut kept: Vec<String> = Vec::new();
    let mut i: usize = 0;
    proof {
        pieces::lemma_filter_ends(all, part_line_test());
    }
    assert(text::views(kept@) =~= seq![]);
    while i < ls.len()
        invariant
            i <= ls@.len(),
            all == text::views(ls@),
            text::views(kept@) == all.take(i as int).filter(part_line_test()),
        decreases ls@.len() - i,
    {
        proof {
            pieces::lemma_filter_step(all, part_line_test(), i as int);
        }
        let ghost before = text::views(kept@);
        let trimmed = trim::trimmed(ls[i].as_str());
        let lowered = chars::to_lowercase(trimmed.as_str());
        if !text::starts_with(trimmed.as_str(), "#") && !text::starts_with(
            lowered.as_str(),
            "section:",
        ) && !text::starts_with(lowered.as_str(), "subsection:") {
            kept.push(text::copy(ls[i].as_str()));
            assert(text::views(kept@) =~= before.push(all[i as int]));
        }
        i += 1;
    }
    proof {
        pieces::lemma_filter_ends(all, part_line_test());
    }
    let joined = pieces::joined(&kept, "\n");
    let candidate = trim::trimmed(joined.as_str());
    if candidate.as_str().is_empty() {
        trim::trimmed(cleaned.as_str())
    } else {
        candidate
    }
}

/// The parts of a section that hold anything, trimmed.
pub open spec fn contents(parts: Seq<Seq<char>>) -> Seq<Seq<char>>
    decreases parts.len(),
{
    if parts.len() == 0 {
        seq![]
    } else {
        let t = trim::trim(parts.last());
        if t.len() == 0 {
            contents(parts.drop_last())
        } else {
            contents(parts.drop_last()).push(t)
        }
    }
}

/// The section that its parts make up.
pub open spec fn assembled(heading: Seq<char>, parts: Seq<Seq<char>>) -> Seq<char> {
    with_heading(heading, pieces::join(contents(parts), "\n\n"@))
}

/// Puts the parts of a section together under its heading.
pub fn assemble_section_from_parts(heading: &str, parts: &Vec<String>) -> (r: String)
    ensures
        r@ == assembled(heading@, text::views(parts@)),
{
    let ghost all = text::views(parts@);
    let mut kept: Vec<String> = Vec::new();
    let mut i: usize = 0;
    assert(text::views(kept@) =~= contents(all.take(0)));
    while i < parts.len()
        invariant
            i <= parts@.len(),
            all == text::views(parts@),
            text::views(kept@) == contents(all.take(i as int)),
        decreases parts@.len() - i,
    {
        assert(all.take(i + 1).drop_last() == all.take(i as int));
        assert(all.take(i + 1).last() == parts@[i as int]@);
        let ghost before = text::views(kept@);
        let trimmed = trim::trimmed(parts[i].as_str());
        if !trimmed.as_str().is_empty() {
            kept.push(trimmed);
            assert(text::views(kept@) =~= before.push(trimmed@));
        }
        i += 1;
    }
    assert(all.take(i as int) == all);
    let joined = pieces::joined(&kept, "\n\n");
    put_heading(heading, joined.as_str())
}

/// An assembled section begins with its heading.
pub proof fn law_assembled_opens_with_heading(heading: Seq<char>, parts: Seq<Seq<char>>)
    ensures
        heading_line(heading).is_prefix_of(assembled(heading, parts)),
{
    let r = assembled(heading, parts);
    assert(r.subrange(0, heading_line(heading).len() as int) =~= heading_line(heading));
}

// References

/// A bibliography under the heading of its style.
pub open spec fn references(raw: Seq<char>, style: ReferenceStyle) -> Seq<char> {
    let cleaned = trim::trim(without_fences(raw));
    if heading_line(style.heading()).is_prefix_of(cleaned) {
        cleaned
    } else {
        heading_line(style.heading()) + "\n\n"@ + cleaned
    }
}

/// Puts a bibliography under the heading of its style, unless it stands there already.
pub fn normalize_references_section(raw: &str, reference_style: &ReferenceStyle) -> (r: String)
    ensures
        r@ == references(raw@, *reference_style),
{
    let bare = strip_code_fences(raw);
    let cleaned = trim::trimmed(bare.as_str());
    let mut heading = heading_of(reference_style.bibliography_heading());
    if text::starts_with(cleaned.as_str(), heading.as_str()) {
        return cleaned;
    }
    heading.append("\n\n");
    heading.append(cleaned.as_str());
    heading
}

/// A bibliography begins with the heading of its style.
pub proof fn law_references_open_with_heading(raw: Seq<char>, style: ReferenceStyle)
    ensures
        heading_line(style.heading()).is_prefix_of(references(raw, style)),
{
    let cleaned = trim::trim(without_fences(raw));
    let h = heading_line(style.heading());
    if !h.is_prefix_of(cleaned) {
        assert(references(raw, style).subrange(0, h.len() as int) =~= h);
    }
}

/// The contents of sections, one after the other.
pub open spec fn section_texts(sections: Seq<SectionView>) -> Seq<Seq<char>> {
    Seq::new(sections.len(), |i: int| sections[i].content)
}

/// The contents of sections with blank lines between them.
pub fn render_existing_sections(sections: &Vec<ResearchSection>) -> (r: String)
    ensures
        r@ == pieces::join(section_texts(models::section_views(sections@)), "\n\n"@),
{
    let ghost all = section_texts(models::section_views(sections@));
    let mut list: Vec<String> = Vec::new();
    let mut i: usize = 0;
    assert(text::views(list@) =~= all.take(0));
    while i < sections.len()
        invariant
            i <= sections@.len(),
            all == section_texts(models::section_views(sections@)),
            text::views(list@) == all.take(i as int),
        decreases sections@.len() - i,
    {
        list.push(text::copy(sections[i].content.as_str()));
        assert(text::views(list@) =~= all.take(i + 1));
        i += 1;
    }
    assert(all.take(i as int) =~= all);
    pieces::joined(&list, "\n\n")
}

} // verus!
