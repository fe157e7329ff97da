//! Recognising outline notes in drafted text, and turning them into prose.

use crate::bytes;
use crate::chars;
use crate::numbers;
use crate::pieces;
use crate::text;
use crate::trim;
use vstd::prelude::*;

verus! {

// Lists and markers

/// The openings that mark a line as a drafting note.
pub open spec fn markers() -> Seq<Seq<char>> {
    seq![
        "drafting:"@,
        "paragraph 1:"@,
        "paragraph 2:"@,
        "paragraph 3:"@,
        "word count check:"@,
        "tone check:"@,
        "citation check:"@,
        "self-correction during drafting"@,
        "requirements:"@,
        "context:"@,
        "objective:"@,
        "findings:"@,
    ]
}

/// The openings that mark a line as part of an outline.
pub open spec fn has_outline_opening(t: Seq<char>) -> bool {
    ||| "paragraph "@.is_prefix_of(t)
    ||| "theme "@.is_prefix_of(t)
    ||| "fragment "@.is_prefix_of(t)
    ||| "source "@.is_prefix_of(t)
    ||| "drafting p"@.is_prefix_of(t)
    ||| "intro:"@.is_prefix_of(t)
    ||| "conclusion:"@.is_prefix_of(t)
}

/// The labels that are dropped from the beginning of a line.
pub open spec fn is_outline_label(t: Seq<char>) -> bool {
    ||| "paragraph "@.is_prefix_of(t)
    ||| "theme "@.is_prefix_of(t)
    ||| "fragment "@.is_prefix_of(t)
    ||| "source "@.is_prefix_of(t)
    ||| "section "@.is_prefix_of(t)
    ||| "subsection "@.is_prefix_of(t)
    ||| "sentence "@.is_prefix_of(t)
    ||| "drafting "@.is_prefix_of(t)
    ||| "wait"@.is_prefix_of(t)
    ||| t == "intro"@
    ||| t == "conclusion"@
    ||| t == "drafting thought"@
    ||| t == "self-correction"@
    ||| t == "self correction"@
    ||| t == "correction"@
    ||| t == "actually"@
    ||| t == "word count check"@
}

/// Remarks on the writing itself, which are dropped whole.
pub open spec fn is_remark(t: Seq<char>) -> bool {
    ||| "word count"@.is_prefix_of(t)
    ||| "citation count"@.is_prefix_of(t)
    ||| "tone check"@.is_prefix_of(t)
    ||| "draft ready"@.is_prefix_of(t)
    ||| text::contains(t, "drafting thought:"@)
    ||| text::contains(t, "self-correction"@)
    ||| text::contains(t, "self correction"@)
    ||| text::contains(t, "wait, "@)
    ||| text::contains(t, "wait:"@)
}

/// A number, a full stop and a space at the beginning of a line.
pub open spec fn is_numbered(s: Seq<char>) -> bool {
    let k = numbers::digits_before(s);
    0 < k && k + 1 < s.len() && s[k] == '.' && s[k + 1] == ' '
}

/// A line of a bulleted or numbered list.
pub open spec fn is_bullet(line: Seq<char>) -> bool {
    let t = trim::trim_start(line);
    ||| "- "@.is_prefix_of(t)
    ||| "* "@.is_prefix_of(t)
    ||| "• "@.is_prefix_of(t)
    ||| is_numbered(t)
}

pub open spec fn bullet_test() -> spec_fn(Seq<char>) -> bool {
    |line: Seq<char>| is_bullet(line)
}

/// The number of lines of lists.
pub open spec fn bullets(text: Seq<char>) -> int {
    pieces::lines(text).filter(bullet_test()).len() as int
}

// Hits, in alphabetical order

/// The alphabetical order of texts, by the numbers of their characters.
pub open spec fn precedes(a: Seq<char>, b: Seq<char>) -> bool
    decreases a.len(),
{
    if b.len() == 0 {
        false
    } else if a.len() == 0 {
        true
    } else if a[0] != b[0] {
        (a[0] as int) < (b[0] as int)
    } else {
        precedes(a.skip(1), b.skip(1))
    }
}

/// A list in strictly ascending order.
pub open spec fn ascending(list: Seq<Seq<char>>) -> bool {
    forall|i: int, j: int| 0 <= i < j < list.len() ==> #[trigger] precedes(list[i], list[j])
}

/// The ascending list with one more text in its place, unless it is there already.
pub open spec fn insert(list: Seq<Seq<char>>, t: Seq<char>) -> Seq<Seq<char>>
    decreases list.len(),
{
    if list.len() == 0 {
        seq![t]
    } else if list[0] == t {
        list
    } else if precedes(t, list[0]) {
        seq![t] + list
    } else {
        seq![list[0]] + insert(list.skip(1), t)
    }
}

/// The list with every marker in it that `t` begins with.
pub open spec fn with_markers(list: Seq<Seq<char>>, t: Seq<char>, ms: Seq<Seq<char>>) -> Seq<
    Seq<char>,
>
    decreases ms.len(),
{
    if ms.len() == 0 {
        list
    } else {
        let done = with_markers(list, t, ms.drop_last());
        if ms.last().is_prefix_of(t) {
            insert(done, ms.last())
        } else {
            done
        }
    }
}

/// The first two words of a text.
pub open spec fn two_words(t: Seq<char>) -> Seq<char> {
    let ws = pieces::words(t);
    pieces::join(
        ws.take(
            if ws.len() < 2 {
                ws.len() as int
            } else {
                2
            },
        ),
        " "@,
    )
}

/// The list with what a line adds to it.
pub open spec fn with_line(list: Seq<Seq<char>>, line: Seq<char>) -> Seq<Seq<char>> {
    let t = chars::lowercase(trim::trim(line));
    let marked = with_markers(list, t, markers());
    if has_outline_opening(t) {
        insert(marked, two_words(t))
    } else {
        marked
    }
}

pub open spec fn hits_in(ls: Seq<Seq<char>>) -> Seq<Seq<char>>
    decreases ls.len(),
{
    if ls.len() == 0 {
        seq![]
    } else {
        with_line(hits_in(ls.drop_last()), ls.last())
    }
}

/// The drafting notes in a text, each once and in alphabetical order.
pub open spec fn hits(text: Seq<char>) -> Seq<Seq<char>> {
    hits_in(pieces::lines(text))
}

/// What a line holds that counts as a drafting note.
pub open spec fn line_holds(line: Seq<char>, h: Seq<char>) -> bool {
    let t = chars::lowercase(trim::trim(line));
    ||| markers().contains(h) && h.is_prefix_of(t)
    ||| has_outline_opening(t) && h == two_words(t)
}

// Lines of prose

/// The line without a bullet or a number before it.
pub open spec fn without_bullet(line: Seq<char>) -> Seq<char> {
    let t = trim::trim_start(line);
    if "- "@.is_prefix_of(t) || "* "@.is_prefix_of(t) || "• "@.is_prefix_of(t) {
        t.skip(2)
    } else if is_numbered(t) {
        t.skip(numbers::digits_before(t) + 2)
    } else {
        t
    }
}

/// The text without the stars, and the space between them, that it begins with.
pub open spec fn without_stars(s: Seq<char>) -> Seq<char>
    decreases s.len(),
{
    if s.len() > 0 && s[0] == '*' {
        proof {
            trim::lemma_trim(s.skip(1));
        }
        without_stars(trim::trim(s.skip(1)))
    } else {
        s
    }
}

/// The text without the stars, and the space between them, that it ends with.
pub open spec fn without_end_stars(s: Seq<char>) -> Seq<char>
    decreases s.len(),
{
    if s.len() > 0 && s.last() == '*' {
        proof {
            trim::lemma_trim(s.drop_last());
        }
        without_end_stars(trim::trim(s.drop_last()))
    } else {
        s
    }
}

/// The first of the texts in `list` that `t` begins with.
pub open spec fn first_opening(list: Seq<Seq<char>>, t: Seq<char>) -> Option<Seq<char>>
    decreases list.len(),
{
    if list.len() == 0 {
        None
    } else if list[0].is_prefix_of(t) {
        Some(list[0])
    } else {
        first_opening(list.skip(1), t)
    }
}

/// The marker that a line begins with once its stars are gone.
pub open spec fn marker_of(line: Seq<char>) -> Option<Seq<char>> {
    first_opening(markers(), chars::lowercase(without_stars(trim::trim(line))))
}

/// A marker is found in the lower-case form of a line and cut from the line itself. The cut is
/// clean where a character of the line ends there.
pub open spec fn cuts_cleanly(line: Seq<char>) -> bool {
    match marker_of(line) {
        Some(m) => bytes::from_byte(without_stars(trim::trim(line)), m.len() as int) is Some,
        None => true,
    }
}

/// The line without a label before it.
pub open spec fn without_label(line: Seq<char>) -> Seq<char> {
    let t = without_stars(trim::trim(line));
    match marker_of(line) {
        Some(m) => match bytes::from_byte(t, m.len() as int) {
            Some(rest) => without_stars(trim::trim(rest)),
            None => t,
        },
        None => match text::split_once(t, ":"@) {
            Some((label, rest)) => if is_outline_label(
                without_end_stars(chars::lowercase(trim::trim(label))),
            ) {
                without_stars(trim::trim(rest))
            } else {
                t
            },
            None => t,
        },
    }
}

pub open spec fn ends_sentence(c: char) -> bool {
    c == '.' || c == '?' || c == '!' || c == ':'
}

/// The sentence that a line of notes holds; empty where it holds none.
pub open spec fn sentence(line: Seq<char>) -> Seq<char> {
    let t = trim::trim(without_label(without_bullet(trim::trim(line))));
    if t.len() == 0 || is_remark(chars::lowercase(t)) {
        seq![]
    } else if ends_sentence(t.last()) {
        t
    } else {
        t.push('.')
    }
}

// Paragraphs

/// Paragraphs that are complete, and the sentences of the one that is not.
pub struct Gathered {
    pub done: Seq<Seq<char>>,
    pub open: Seq<Seq<char>>,
}

impl Gathered {
    /// The sentences gathered so far become a paragraph.
    pub open spec fn closed(self) -> Gathered {
        if self.open.len() == 0 {
            self
        } else {
            Gathered { done: self.done.push(pieces::join(self.open, " "@)), open: seq![] }
        }
    }

    /// One more sentence; an empty one ends the paragraph.
    pub open spec fn and(self, s: Seq<char>) -> Gathered {
        if s.len() == 0 {
            self.closed()
        } else {
            Gathered { done: self.done, open: self.open.push(s) }
        }
    }
}

pub open spec fn gather(ls: Seq<Seq<char>>) -> Gathered
    decreases ls.len(),
{
    if ls.len() == 0 {
        Gathered { done: seq![], open: seq![] }
    } else {
        gather(ls.drop_last()).and(sentence(ls.last()))
    }
}

pub open spec fn is_blank(t: Seq<char>) -> bool {
    trim::trim(t).len() == 0
}

pub open spec fn content_test() -> spec_fn(Seq<char>) -> bool {
    |t: Seq<char>| !is_blank(t)
}

/// A text without lists and drafting notes.
pub open spec fn is_prose(text: Seq<char>) -> bool {
    bullets(text) == 0 && hits(text).len() == 0
}

/// Every line that has to be rewritten can be.
pub open spec fn converts(text: Seq<char>) -> bool {
    is_prose(text) || forall|i: int|
        0 <= i < pieces::lines(text).len() ==> cuts_cleanly(
            without_bullet(trim::trim(#[trigger] pieces::lines(text)[i])),
        )
}

/// The prose that a text of notes amounts to.
pub open spec fn prose(text: Seq<char>) -> Seq<char> {
    if is_prose(text) {
        trim::trim(text)
    } else {
        trim::trim(
            pieces::join(
                gather(pieces::lines(text)).closed().done.filter(content_test()),
                "\n\n"@,
            ),
        )
    }
}

// Facts about the definitions

/// The alphabetical order is transitive.
pub proof fn lemma_precedes_transitive(a: Seq<char>, b: Seq<char>, c: Seq<char>)
    requires
        precedes(a, b),
        precedes(b, c),
    ensures
        precedes(a, c),
    decreases a.len(),
{
    if a.len() > 0 && b.len() > 0 && c.len() > 0 && a[0] == b[0] && b[0] == c[0] {
        lemma_precedes_transitive(a.skip(1), b.skip(1), c.skip(1));
    }
}

/// Of two different texts one precedes the other.
pub proof fn lemma_precedes_total(a: Seq<char>, b: Seq<char>)
    ensures
        a != b ==> precedes(a, b) || precedes(b, a),
        !precedes(a, a),
    decreases a.len(),
{
    if a.len() > 0 && b.len() > 0 && a[0] == b[0] {
        lemma_precedes_total(a.skip(1), b.skip(1));
        if a != b && a.skip(1) == b.skip(1) {
            assert forall|i: int| 0 <= i < a.len() implies a[i] == b[i] by {
                if i > 0 {
                    assert(a.skip(1)[i - 1] == b.skip(1)[i - 1]);
                }
            }
            assert(a.len() == a.skip(1).len() + 1);
            assert(a =~= b);
        }
    } else if a.len() == 0 && b.len() == 0 {
        assert(a =~= b);
    }
    if a.len() > 0 {
        lemma_precedes_total(a.skip(1), a.skip(1));
    }
}

/// A common beginning does not count.
pub proof fn lemma_precedes_common(p: Seq<char>, a: Seq<char>, b: Seq<char>)
    ensures
        precedes(p + a, p + b) == precedes(a, b),
    decreases p.len(),
{
    if p.len() == 0 {
        assert(p + a =~= a);
        assert(p + b =~= b);
    } else {
        lemma_precedes_common(p.skip(1), a, b);
        assert((p + a).skip(1) =~= p.skip(1) + a);
        assert((p + b).skip(1) =~= p.skip(1) + b);
    }
}

/// What follows texts of one length does not count where they differ.
pub proof fn lemma_precedes_extended(a: Seq<char>, b: Seq<char>, x: Seq<char>, y: Seq<char>)
    requires
        a.len() == b.len(),
        precedes(a, b),
    ensures
        precedes(a + x, b + y),
    decreases a.len(),
{
    if a[0] == b[0] {
        lemma_precedes_extended(a.skip(1), b.skip(1), x, y);
        assert((a + x).skip(1) =~= a.skip(1) + x);
        assert((b + y).skip(1) =~= b.skip(1) + y);
    }
}

/// Inserting keeps the order and adds the one text.
pub proof fn lemma_insert(list: Seq<Seq<char>>, t: Seq<char>)
    requires
        ascending(list),
    ensures
        ascending(insert(list, t)),
        forall|h: Seq<char>| #[trigger] insert(list, t).contains(h) <==> list.contains(h) || h == t,
    decreases list.len(),
{
    if list.len() == 0 {
        assert(insert(list, t)[0] == t);
    } else if list[0] == t {
        assert(list.contains(t));
    } else if precedes(t, list[0]) {
        let r = insert(list, t);
        assert(r == seq![t] + list);
        assert forall|i: int, j: int| 0 <= i < j < r.len() implies #[trigger] precedes(
            r[i],
            r[j],
        ) by {
            if i == 0 {
                if j > 1 {
                    assert(precedes(list[0], list[j - 1]));
                    lemma_precedes_transitive(t, list[0], list[j - 1]);
                }
            } else {
                assert(precedes(list[i - 1], list[j - 1]));
            }
        }
        assert forall|h: Seq<char>| #[trigger] r.contains(h) <==> list.contains(h) || h == t by {
            if list.contains(h) {
                let k = choose|k: int| 0 <= k < list.len() && list[k] == h;
                assert(r[k + 1] == h);
            }
            if h == t {
                assert(r[0] == h);
            }
            if r.contains(h) {
                let k = choose|k: int| 0 <= k < r.len() && r[k] == h;
                if k > 0 {
                    assert(list[k - 1] == h);
                }
            }
        }
    } else {
        lemma_precedes_total(t, list[0]);
        let tail = list.skip(1);
        assert forall|i: int, j: int| 0 <= i < j < tail.len() implies #[trigger] precedes(
            tail[i],
            tail[j],
        ) by {
            assert(precedes(list[i + 1], list[j + 1]));
        }
        lemma_insert(tail, t);
        let sub = insert(tail, t);
        let r = insert(list, t);
        assert(r == seq![list[0]] + sub);
        assert forall|i: int, j: int| 0 <= i < j < r.len() implies #[trigger] precedes(
            r[i],
            r[j],
        ) by {
            if i == 0 {
                assert(sub.contains(sub[j - 1]));
                if tail.contains(sub[j - 1]) {
                    let k = choose|k: int| 0 <= k < tail.len() && tail[k] == sub[j - 1];
                    assert(precedes(list[0], list[k + 1]));
                }
            } else {
                assert(precedes(sub[i - 1], sub[j - 1]));
            }
        }
        assert forall|h: Seq<char>| #[trigger] r.contains(h) <==> list.contains(h) || h == t by {
            if list.contains(h) {
                let k = choose|k: int| 0 <= k < list.len() && list[k] == h;
                if k == 0 {
                    assert(r[0] == h);
                } else {
                    assert(tail[k - 1] == h);
                    assert(sub.contains(h));
                    let m = choose|m: int| 0 <= m < sub.len() && sub[m] == h;
                    assert(r[m + 1] == h);
                }
            }
            if h == t {
                assert(sub.contains(h));
                let m = choose|m: int| 0 <= m < sub.len() && sub[m] == h;
                assert(r[m + 1] == h);
            }
            if r.contains(h) {
                let k = choose|k: int| 0 <= k < r.len() && r[k] == h;
                if k == 0 {
                    assert(list[0] == h);
                } else {
                    assert(sub[k - 1] == h);
                    assert(sub.contains(h));
                    if tail.contains(h) {
                        let m = choose|m: int| 0 <= m < tail.len() && tail[m] == h;
                        assert(list[m + 1] == h);
                    }
                }
            }
        }
    }
}

pub proof fn lemma_with_markers(list: Seq<Seq<char>>, t: Seq<char>, ms: Seq<Seq<char>>)
    requires
        ascending(list),
    ensures
        ascending(with_markers(list, t, ms)),
        forall|h: Seq<char>| #[trigger]
            with_markers(list, t, ms).contains(h) <==> list.contains(h) || (ms.contains(h)
                && h.is_prefix_of(t)),
    decreases ms.len(),
{
    if ms.len() > 0 {
        let init = ms.drop_last();
        lemma_with_markers(list, t, init);
        let done = with_markers(list, t, init);
        if ms.last().is_prefix_of(t) {
            lemma_insert(done, ms.last());
        }
        assert forall|h: Seq<char>| #[trigger]
            with_markers(list, t, ms).contains(h) <==> list.contains(h) || (ms.contains(h)
                && h.is_prefix_of(t)) by {
            assert(done.contains(h) <==> list.contains(h) || (init.contains(h) && h.is_prefix_of(
                t,
            )));
            if ms.contains(h) {
                let k = choose|k: int| 0 <= k < ms.len() && ms[k] == h;
                if k < ms.len() - 1 {
                    assert(init[k] == h);
                }
            }
            if init.contains(h) {
                let k = choose|k: int| 0 <= k < init.len() && init[k] == h;
                assert(ms[k] == h);
            }
            assert(ms[ms.len() - 1] == ms.last());
        }
    }
}

pub proof fn lemma_hits_in(ls: Seq<Seq<char>>)
    ensures
        ascending(hits_in(ls)),
        forall|h: Seq<char>| #[trigger]
            hits_in(ls).contains(h) <==> exists|i: int|
                0 <= i < ls.len() && line_holds(#[trigger] ls[i], h),
    decreases ls.len(),
{
    if ls.len() > 0 {
        let init = ls.drop_last();
        lemma_hits_in(init);
        let done = hits_in(init);
        let t = chars::lowercase(trim::trim(ls.last()));
        lemma_with_markers(done, t, markers());
        let marked = with_markers(done, t, markers());
        if has_outline_opening(t) {
            lemma_insert(marked, two_words(t));
        }
        assert forall|h: Seq<char>| #[trigger]
            hits_in(ls).contains(h) <==> exists|i: int|
                0 <= i < ls.len() && line_holds(#[trigger] ls[i], h) by {
            assert(marked.contains(h) <==> done.contains(h) || (markers().contains(h)
                && h.is_prefix_of(t)));
            assert(hits_in(ls).contains(h) <==> done.contains(h) || line_holds(ls.last(), h));
            assert(ls[ls.len() - 1] == ls.last());
            if done.contains(h) {
                let i = choose|i: int| 0 <= i < init.len() && line_holds(#[trigger] init[i], h);
                assert(ls[i] == init[i]);
            }
            if exists|i: int| 0 <= i < ls.len() && line_holds(#[trigger] ls[i], h) {
                let i = choose|i: int| 0 <= i < ls.len() && line_holds(#[trigger] ls[i], h);
                if i < ls.len() - 1 {
                    assert(init[i] == ls[i]);
                }
            }
        }
    }
}

/// The notes found in a text are in strictly ascending order, and are exactly what its lines hold.
pub proof fn law_hits_are_what_the_lines_hold(text: Seq<char>)
    ensures
        ascending(hits(text)),
        forall|h: Seq<char>| #[trigger]
            hits(text).contains(h) <==> exists|i: int|
                0 <= i < pieces::lines(text).len() && line_holds(
                    #[trigger] pieces::lines(text)[i],
                    h,
                ),
{
    lemma_hits_in(pieces::lines(text));
}

// Recognising notes

/// The openings that mark a line as a drafting note.
fn banned_markers() -> (r: Vec<&'static str>)
    ensures
        text::str_views(r@) == markers(),
{
    let r = vec![
        "drafting:",
        "paragraph 1:",
        "paragraph 2:",
        "paragraph 3:",
        "word count check:",
        "tone check:",
        "citation check:",
        "self-correction during drafting",
        "requirements:",
        "context:",
        "objective:",
        "findings:",
    ];
    assert(text::str_views(r@) =~= markers());
    r
}

/// Whether one text precedes another alphabetically.
pub fn is_before(a: &str, b: &str) -> (r: bool)
    ensures
        r == precedes(a@, b@),
{
    let x = text::chars_of(a);
    let y = text::chars_of(b);
    let mut i: usize = 0;
    assert(x@.skip(0) == x@ && y@.skip(0) == y@);
    while i < x.len() && i < y.len() && x[i] == y[i]
        invariant
            i <= x@.len(),
            i <= y@.len(),
            precedes(x@, y@) == precedes(x@.skip(i as int), y@.skip(i as int)),
        decreases x@.len() - i,
    {
        assert(x@.skip(i as int).skip(1) == x@.skip(i + 1));
        assert(y@.skip(i as int).skip(1) == y@.skip(i + 1));
        i += 1;
    }
    if i >= y.len() {
        false
    } else if i >= x.len() {
        true
    } else {
        chars::below(x[i], y[i])
    }
}

/// Puts a text into its place in an ascending list, unless it is there already.
fn place(list: &mut Vec<String>, t: String)
    ensures
        text::views(final(list)@) == insert(text::views(old(list)@), t@),
{
    let ghost all = text::views(list@);
    let ghost start = list@;
    let mut i: usize = 0;
    assert(all.skip(0) == all);
    assert(all.take(0) + insert(all.skip(0), t@) == insert(all, t@));
    while i < list.len()
        invariant
            i <= list@.len(),
            list@ == start,
            old(list)@ == start,
            all == text::views(list@),
            insert(all, t@) == all.take(i as int) + insert(all.skip(i as int), t@),
        decreases list@.len() - i,
    {
        let ghost rest = all.skip(i as int);
        if text::same(list[i].as_str(), t.as_str()) {
            assert(all.take(i as int) + rest == all);
            return ;
        }
        if is_before(t.as_str(), list[i].as_str()) {
            let ghost added = t@;
            list.insert(i, t);
            assert(text::views(list@) =~= all.take(i as int) + (seq![added] + rest));
            return ;
        }
        assert(rest.skip(1) == all.skip(i + 1));
        assert(all.take(i as int) + (seq![rest[0]] + insert(all.skip(i + 1), t@)) =~= all.take(
            i + 1,
        ) + insert(all.skip(i + 1), t@));
        i += 1;
    }
    let ghost added = t@;
    list.push(t);
    assert(all.skip(i as int) =~= seq![]);
    assert(text::views(list@) =~= all.take(i as int) + seq![added]);
}

/// Whether a line begins with a number, a full stop and a space.
pub fn is_numbered_list(line: &str) -> (r: bool)
    ensures
        r == is_numbered(line@),
{
    let x = text::chars_of(line);
    let k = numbers::count_digits(&x, 0);
    proof {
        numbers::lemma_digits_before(line@);
        assert(x@.skip(0) == line@);
    }
    k > 0 && x.len() - k >= 2 && x[k] == '.' && x[k + 1] == ' '
}

/// Whether a line belongs to a bulleted or numbered list.
pub fn is_bullet_line(line: &str) -> (r: bool)
    ensures
        r == is_bullet(line@),
{
    let trimmed = trim::trimmed_start(line);
    let t = trimmed.as_str();
    text::starts_with(t, "- ") || text::starts_with(t, "* ") || text::starts_with(t, "• ")
        || is_numbered_list(t)
}

/// The number of lines that belong to lists.
pub fn count_bullet_lines(text: &str) -> (r: usize)
    ensures
        r == bullets(text@),
{
    let ls = pieces::lines_of(text);
    let ghost all = pieces::lines(text@);
    let mut n: usize = 0;
    let mut i: usize = 0;
    proof {
        pieces::lemma_filter_ends(all, bullet_test());
    }
    while i < ls.len()
        invariant
            i <= ls@.len(),
            all == text::views(ls@),
            n <= i,
            n == all.take(i as int).filter(bullet_test()).len(),
        decreases ls@.len() - i,
    {
        proof {
            pieces::lemma_filter_step(all, bullet_test(), i as int);
        }
        if is_bullet_line(ls[i].as_str()) {
            n += 1;
        }
        i += 1;
    }
    proof {
        pieces::lemma_filter_ends(all, bullet_test());
    }
    n
}

/// Whether a lowered line opens like part of an outline.
fn opens_outline(t: &str) -> (r: bool)
    ensures
        r == has_outline_opening(t@),
{
    text::starts_with(t, "paragraph ") || text::starts_with(t, "theme ") || text::starts_with(
        t,
        "fragment ",
    ) || text::starts_with(t, "source ") || text::starts_with(t, "drafting p")
        || text::starts_with(t, "intro:") || text::starts_with(t, "conclusion:")
}

/// The first two words of a text.
fn first_two_words(t: &str) -> (r: String)
    ensures
        r@ == two_words(t@),
{
    let ws = pieces::words_of(t);
    let mut firsts: Vec<String> = Vec::new();
    let mut i: usize = 0;
    while i < ws.len() && i < 2
        invariant
            i <= ws@.len(),
            i <= 2,
            firsts@.len() == i,
            forall|j: int| 0 <= j < i ==> firsts@[j]@ == #[trigger] ws@[j]@,
        decreases 2 - i,
    {
        firsts.push(text::copy(ws[i].as_str()));
        i += 1;
    }
    let ghost all = pieces::words(t@);
    assert(all == text::views(ws@));
    assert(text::views(firsts@) =~= all.take(i as int));
    pieces::joined(&firsts, " ")
}

/// The drafting notes in a text, each once and in alphabetical order.
pub fn collect_banned_phrase_hits(text: &str) -> (r: Vec<String>)
    ensures
        text::views(r@) == hits(text@),
{
    let ls = pieces::lines_of(text);
    let ms = banned_markers();
    let ghost all = pieces::lines(text@);
    let mut found: Vec<String> = Vec::new();
    let mut i: usize = 0;
    assert(text::views(found@) =~= hits_in(all.take(0)));
    while i < ls.len()
        invariant
            i <= ls@.len(),
            all == text::views(ls@),
            text::str_views(ms@) == markers(),
            text::views(found@) == hits_in(all.take(i as int)),
        decreases ls@.len() - i,
    {
        let trimmed = trim::trimmed(ls[i].as_str());
        let lowered = chars::to_lowercase(trimmed.as_str());
        let ghost before = text::views(found@);
        assert(all.take(i + 1).drop_last() == all.take(i as int));
        assert(all.take(i + 1).last() == ls@[i as int]@);
        let mut k: usize = 0;
        assert(markers().take(0) =~= seq![]);
        while k < ms.len()
            invariant
                k <= ms@.len(),
                text::str_views(ms@) == markers(),
                text::views(found@) == with_markers(before, lowered@, markers().take(k as int)),
            decreases ms@.len() - k,
        {
            assert(markers().take(k + 1).drop_last() == markers().take(k as int));
            assert(markers().take(k + 1).last() == ms@[k as int]@);
            if text::starts_with(lowered.as_str(), ms[k]) {
                place(&mut found, text::copy(ms[k]));
            }
            k += 1;
        }
        assert(markers().take(k as int) == markers());
        if opens_outline(lowered.as_str()) {
            let label = first_two_words(lowered.as_str());
            place(&mut found, label);
        }
        i += 1;
    }
    assert(all.take(i as int) == all);
    found
}

// Rewriting lines

/// The line without a bullet or a number before it.
pub fn strip_bullet_prefix(line: &str) -> (r: String)
    ensures
        r@ == without_bullet(line@),
{
    let trimmed = trim::trimmed_start(line);
    let t = trimmed.as_str();
    let x = text::chars_of(t);
    proof {
        reveal_strlit("- ");
        reveal_strlit("* ");
        reveal_strlit("• ");
        numbers::lemma_digits_before(t@);
    }
    if text::starts_with(t, "- ") || text::starts_with(t, "* ") || text::starts_with(t, "• ") {
        let rest = text::text_between(&x, 2, x.len());
        assert(rest@ == t@.skip(2));
        return rest;
    }
    if is_numbered_list(t) {
        let k = numbers::count_digits(&x, 0);
        assert(x@.skip(0) == t@);
        let rest = text::text_between(&x, k + 2, x.len());
        assert(rest@ == t@.skip(k + 2));
        return rest;
    }
    trimmed
}

/// The text without the stars, and the space between them, that it begins with.
fn strip_stars(s: String) -> (r: String)
    ensures
        r@ == without_stars(s@),
{
    let mut t = s;
    while text::starts_with(t.as_str(), "*")
        invariant
            without_stars(s@) == without_stars(t@),
        decreases t@.len(),
    {
        proof {
            reveal_strlit("*");
            assert("*"@ =~= seq!['*']);
            assert(t@[0] == "*"@[0]);
            trim::lemma_trim(t@.skip(1));
        }
        let x = text::chars_of(t.as_str());
        let rest = text::text_between(&x, 1, x.len());
        assert(rest@ == t@.skip(1));
        t = trim::trimmed(rest.as_str());
    }
    proof {
        reveal_strlit("*");
        if t@.len() > 0 && t@[0] == '*' {
            assert(t@.subrange(0, 1) =~= "*"@);
        }
    }
    t
}

/// The text without the stars, and the space between them, that it ends with.
fn strip_end_stars(s: String) -> (r: String)
    ensures
        r@ == without_end_stars(s@),
{
    let mut t = s;
    loop
        invariant
            without_end_stars(s@) == without_end_stars(t@),
        decreases t@.len(),
    {
        let x = text::chars_of(t.as_str());
        if x.len() == 0 || x[x.len() - 1] != '*' {
            return t;
        }
        proof {
            trim::lemma_trim(t@.drop_last());
        }
        let rest = text::text_between(&x, 0, x.len() - 1);
        assert(rest@ == t@.drop_last());
        t = trim::trimmed(rest.as_str());
    }
}

/// Whether a lowered label is one that is dropped.
fn drops_label(t: &str) -> (r: bool)
    ensures
        r == is_outline_label(t@),
{
    text::starts_with(t, "paragraph ") || text::starts_with(t, "theme ") || text::starts_with(
        t,
        "fragment ",
    ) || text::starts_with(t, "source ") || text::starts_with(t, "section ") || text::starts_with(
        t,
        "subsection ",
    ) || text::starts_with(t, "sentence ") || text::starts_with(t, "drafting ")
        || text::starts_with(t, "wait") || text::same(t, "intro") || text::same(t, "conclusion")
        || text::same(t, "drafting thought") || text::same(t, "self-correction") || text::same(
        t,
        "self correction",
    ) || text::same(t, "correction") || text::same(t, "actually") || text::same(
        t,
        "word count check",
    )
}

/// The marker that a lowered line begins with.
fn opening_marker(lowered: &str) -> (r: Option<&'static str>)
    ensures
        r is Some <==> first_opening(markers(), lowered@) is Some,
        r matches Some(m) ==> first_opening(markers(), lowered@) == Some(m@),
{
    let ms = banned_markers();
    let mut k: usize = 0;
    assert(markers().skip(0) == markers());
    while k < ms.len()
        invariant
            k <= ms@.len(),
            text::str_views(ms@) == markers(),
            first_opening(markers(), lowered@) == first_opening(
                markers().skip(k as int),
                lowered@,
            ),
        decreases ms@.len() - k,
    {
        assert(markers().skip(k as int)[0] == ms@[k as int]@);
        if text::starts_with(lowered, ms[k]) {
            return Some(ms[k]);
        }
        assert(markers().skip(k as int).skip(1) == markers().skip(k + 1));
        k += 1;
    }
    None
}

/// Whether the marker that a line begins with, if any, can be cut from it.
pub fn label_cuts_cleanly(line: &str) -> (r: bool)
    ensures
        r == cuts_cleanly(line@),
{
    let t = strip_stars(trim::trimmed(line));
    let lowered = chars::to_lowercase(t.as_str());
    match opening_marker(lowered.as_str()) {
        Some(m) => {
            let length = text::chars_of(m).len();
            bytes::text_from_byte(t.as_str(), length).is_some()
        },
        None => true,
    }
}

/// The line without a label before it.
pub fn strip_outline_label(line: &str) -> (r: String)
    requires
        cuts_cleanly(line@),
    ensures
        r@ == without_label(line@),
{
    let t = strip_stars(trim::trimmed(line));
    let lowered = chars::to_lowercase(t.as_str());
    match opening_marker(lowered.as_str()) {
        Some(m) => {
            let length = text::chars_of(m).len();
            match bytes::text_from_byte(t.as_str(), length) {
                Some(rest) => strip_stars(trim::trimmed(rest.as_str())),
                None => t,
            }
        },
        None => match text::cut_once(t.as_str(), ":") {
            Some((label, rest)) => {
                let trimmed = trim::trimmed(label.as_str());
                let lowered_label = strip_end_stars(chars::to_lowercase(trimmed.as_str()));
                if drops_label(lowered_label.as_str()) {
                    strip_stars(trim::trimmed(rest.as_str()))
                } else {
                    t
                }
            },
            None => t,
        },
    }
}

/// Whether a lowered line is a remark on the writing itself.
fn is_writing_remark(t: &str) -> (r: bool)
    ensures
        r == is_remark(t@),
{
    text::starts_with(t, "word count") || text::starts_with(t, "citation count")
        || text::starts_with(t, "tone check") || text::starts_with(t, "draft ready") || text::has(
        t,
        "drafting thought:",
    ) || text::has(t, "self-correction") || text::has(t, "self correction") || text::has(
        t,
        "wait, ",
    ) || text::has(t, "wait:")
}

/// The sentence that a line of notes holds; empty where it holds none.
pub fn clean_outline_line(line: &str) -> (r: String)
    requires
        cuts_cleanly(without_bullet(trim::trim(line@))),
    ensures
        r@ == sentence(line@),
{
    let trimmed = trim::trimmed(line);
    let bare = strip_bullet_prefix(trimmed.as_str());
    let unlabelled = strip_outline_label(bare.as_str());
    let mut cleaned = trim::trimmed(unlabelled.as_str());
    let x = text::chars_of(cleaned.as_str());
    if x.len() == 0 {
        assert(cleaned@ =~= seq![]);
        return cleaned;
    }
    let lowered = chars::to_lowercase(cleaned.as_str());
    if is_writing_remark(lowered.as_str()) {
        let r = String::new();
        assert(r@ =~= seq![]);
        return r;
    }
    let last = x[x.len() - 1];
    if !(last == '.' || last == '?' || last == '!' || last == ':') {
        cleaned.push('.');
    }
    cleaned
}

// Rewriting texts

/// Whether a text has neither lists nor drafting notes.
fn reads_as_prose(text: &str) -> (r: bool)
    ensures
        r == is_prose(text@),
{
    let n = count_bullet_lines(text);
    let found = collect_banned_phrase_hits(text);
    assert(text::views(found@).len() == found@.len());
    n == 0 && found.len() == 0
}

/// Whether every line of a text that has to be rewritten can be.
pub fn outline_converts(text: &str) -> (r: bool)
    ensures
        r == converts(text@),
{
    if reads_as_prose(text) {
        return true;
    }
    let ls = pieces::lines_of(text);
    let mut i: usize = 0;
    while i < ls.len()
        invariant
            i <= ls@.len(),
            pieces::lines(text@) == text::views(ls@),
            !is_prose(text@),
            forall|j: int|
                0 <= j < i ==> cuts_cleanly(
                    without_bullet(trim::trim(#[trigger] pieces::lines(text@)[j])),
                ),
        decreases ls@.len() - i,
    {
        assert(pieces::lines(text@)[i as int] == ls@[i as int]@);
        let trimmed = trim::trimmed(ls[i].as_str());
        let bare = strip_bullet_prefix(trimmed.as_str());
        if !label_cuts_cleanly(bare.as_str()) {
            return false;
        }
        i += 1;
    }
    true
}

/// The prose that a text of notes amounts to.
pub fn convert_outline_fragment_to_prose(text: &str) -> (r: String)
    requires
        converts(text@),
    ensures
        r@ == prose(text@),
{
    if reads_as_prose(text) {
        return trim::trimmed(text);
    }
    let ls = pieces::lines_of(text);
    let ghost all = pieces::lines(text@);
    let mut paragraphs: Vec<String> = Vec::new();
    let mut open: Vec<String> = Vec::new();
    let mut i: usize = 0;
    assert(text::views(paragraphs@) =~= seq![]);
    assert(text::views(open@) =~= seq![]);
    while i < ls.len()
        invariant
            i <= ls@.len(),
            all == text::views(ls@),
            all == pieces::lines(text@),
            converts(text@),
            !is_prose(text@),
            gather(all.take(i as int)) == (Gathered {
                done: text::views(paragraphs@),
                open: text::views(open@),
            }),
        decreases ls@.len() - i,
    {
        assert(all.take(i + 1).drop_last() == all.take(i as int));
        assert(all.take(i + 1).last() == all[i as int]);
        assert(all[i as int] == ls@[i as int]@);
        let cleaned = clean_outline_line(ls[i].as_str());
        let ghost done = text::views(paragraphs@);
        let ghost sentences = text::views(open@);
        if text::same(cleaned.as_str(), "") {
            proof {
                reveal_strlit("");
            }
            assert(cleaned@.len() == 0);
            if open.len() > 0 {
                let paragraph = pieces::joined(&open, " ");
                paragraphs.push(paragraph);
                assert(text::views(paragraphs@) =~= done.push(paragraph@));
                open = Vec::new();
                assert(text::views(open@) =~= seq![]);
            }
        } else {
            proof {
                reveal_strlit("");
                if cleaned@.len() == 0 {
                    assert(cleaned@ =~= ""@);
                }
            }
            open.push(cleaned);
            assert(text::views(open@) =~= sentences.push(cleaned@));
        }
        i += 1;
    }
    assert(all.take(i as int) == all);
    if open.len() > 0 {
        let ghost done = text::views(paragraphs@);
        let paragraph = pieces::joined(&open, " ");
        paragraphs.push(paragraph);
        assert(text::views(paragraphs@) =~= done.push(paragraph@));
    }
    let ghost every = text::views(paragraphs@);
    assert(every == gather(all).closed().done);
    let mut kept: Vec<String> = Vec::new();
    let mut k: usize = 0;
    proof {
        pieces::lemma_filter_ends(every, content_test());
    }
    assert(text::views(kept@) =~= seq![]);
    while k < paragraphs.len()
        invariant
            k <= paragraphs@.len(),
            every == text::views(paragraphs@),
            text::views(kept@) == every.take(k as int).filter(content_test()),
        decreases paragraphs@.len() - k,
    {
        proof {
            pieces::lemma_filter_step(every, content_test(), k as int);
        }
        let ghost before = text::views(kept@);
        let trimmed = trim::trimmed(paragraphs[k].as_str());
        if !trimmed.as_str().is_empty() {
            let paragraph = text::copy(paragraphs[k].as_str());
            kept.push(paragraph);
            assert(text::views(kept@) =~= before.push(paragraph@));
        }
        k += 1;
    }
    proof {
        pieces::lemma_filter_ends(every, content_test());
    }
    let body = pieces::joined(&kept, "\n\n");
    trim::trimmed(body.as_str())
}

/// The prose that a text of notes amounts to, where every line can be rewritten.
pub fn try_convert_outline_fragment_to_prose(text: &str) -> (r: Option<String>)
    ensures
        r is Some <==> converts(text@),
        r matches Some(t) ==> t@ == prose(text@),
{
    if outline_converts(text) {
        Some(convert_outline_fragment_to_prose(text))
    } else {
        None
    }
}

} // verus!
