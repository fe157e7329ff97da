//! Shortening, cutting and labelling pieces of text.

use crate::bytes;
use crate::chars;
use crate::numbers;
use crate::pieces;
use crate::text;
use crate::trim;
use vstd::prelude::*;

verus! {

/// The longest topic that is accepted, in characters.
pub const MAX_TOPIC_LENGTH: usize = 500;

// Shortening

/// A text cut to at most `max` bytes at the last space before them, with dots to show the cut.
pub open spec fn truncated(t: Seq<char>, max: int) -> Seq<char> {
    if bytes::byte_len(t) <= max {
        t
    } else {
        let kept = t.take(bytes::fitting(t, max));
        match text::last_index(kept, ' ') {
            Some(p) => kept.take(p) + "..."@,
            None => kept + "..."@,
        }
    }
}

/// Shortens a text to at most `max_len` bytes, and dots where anything was cut.
pub fn truncate(t: &str, max_len: usize) -> (r: String)
    ensures
        r@ == truncated(t@, max_len as int),
{
    if bytes::byte_length(t) <= max_len {
        return text::copy(t);
    }
    let x = text::chars_of(t);
    assert(x@.skip(0) == t@);
    let end = bytes::how_many_fit(&x, 0, max_len);
    let ghost kept = t@.take(end as int);
    let cut = match text::position_of_last(&x, ' ', end) {
        Some(p) => p,
        None => end,
    };
    let mut r = text::text_between(&x, 0, cut);
    assert(r@ == kept.take(cut as int));
    assert(kept.take(end as int) == kept);
    r.append("...");
    r
}

/// A shortened text is a beginning of the text with dots behind it, and no longer than the limit
/// and the dots; a text within the limit stays as it is.
pub proof fn law_truncated(t: Seq<char>, max: int)
    requires
        max >= 0,
    ensures
        bytes::byte_len(truncated(t, max)) <= max + 3,
        bytes::byte_len(t) <= max ==> truncated(t, max) == t,
        bytes::byte_len(t) > max ==> exists|n: int|
            0 <= n <= t.len() && truncated(t, max) == #[trigger] t.take(n) + "..."@,
{
    if bytes::byte_len(t) > max {
        let n = bytes::fitting(t, max);
        let kept = t.take(n);
        bytes::lemma_fitting(t, max);
        reveal_strlit("...");
        assert("..."@ =~= seq!['.', '.', '.']);
        assert(bytes::byte_len("..."@) == 3) by {
            reveal_with_fuel(bytes::byte_len, 4);
        }
        text::lemma_last_index(kept, ' ');
        match text::last_index(kept, ' ') {
            Some(p) => {
                assert(kept.take(p) == t.take(p));
                bytes::lemma_byte_len_of_beginning(t, p, n);
                bytes::lemma_byte_len_concat(t.take(p), "..."@);
                assert(truncated(t, max) == t.take(p) + "..."@);
            },
            None => {
                bytes::lemma_byte_len_concat(kept, "..."@);
                assert(truncated(t, max) == t.take(n) + "..."@);
            },
        }
    }
}

// Topics

/// The characters that may stand in a topic.
pub open spec fn topic_test() -> spec_fn(char) -> bool {
    |c: char| !chars::is_control(c) || c == '\n'
}

/// A topic as it is used: trimmed, without control characters but line feeds, and of limited
/// length.
pub open spec fn sanitized(t: Seq<char>) -> Seq<char> {
    let kept = trim::trim(t).filter(topic_test());
    trim::trim(
        if kept.len() > MAX_TOPIC_LENGTH {
            kept.take(MAX_TOPIC_LENGTH as int)
        } else {
            kept
        },
    )
}

/// Trims a topic, strips control characters and limits the length.
pub fn sanitize_topic(t: &str) -> (r: String)
    ensures
        r@ == sanitized(t@),
{
    let trimmed = trim::trimmed(t);
    let x = text::chars_of(trimmed.as_str());
    let ghost all = x@.filter(topic_test());
    let mut kept = String::new();
    let mut n: usize = 0;
    let mut i: usize = 0;
    proof {
        pieces::lemma_filter_ends(x@, topic_test());
    }
    assert(kept@ =~= x@.take(0).filter(topic_test()));
    while i < x.len() && n < MAX_TOPIC_LENGTH
        invariant
            i <= x@.len(),
            n == kept@.len(),
            n <= MAX_TOPIC_LENGTH,
            kept@ == x@.take(i as int).filter(topic_test()),
        decreases x@.len() - i,
    {
        proof {
            pieces::lemma_filter_step(x@, topic_test(), i as int);
        }
        if !chars::control(x[i]) || x[i] == '\n' {
            kept.push(x[i]);
            n += 1;
        }
        i += 1;
    }
    proof {
        let head = x@.take(i as int);
        let tail = x@.skip(i as int);
        assert(head + tail == x@);
        Seq::filter_distributes_over_add(head, tail, topic_test());
        if i == x@.len() {
            assert(head == x@);
        } else {
            assert(all.take(n as int) == kept@);
        }
        if all.len() > MAX_TOPIC_LENGTH {
            assert(all.take(MAX_TOPIC_LENGTH as int) == kept@);
        } else {
            assert(all.take(all.len() as int) == all);
            assert(all == kept@);
        }
    }
    trim::trimmed(kept.as_str())
}

/// What passes a filter in full stays as it is.
pub proof fn lemma_filter_all<A>(s: Seq<A>, p: spec_fn(A) -> bool)
    requires
        forall|i: int| 0 <= i < s.len() ==> p(#[trigger] s[i]),
    ensures
        s.filter(p) == s,
    decreases s.len(),
{
    reveal(Seq::filter);
    if s.len() > 0 {
        assert forall|i: int| 0 <= i < s.drop_last().len() implies p(
            #[trigger] s.drop_last()[i],
        ) by {
            assert(s.drop_last()[i] == s[i]);
        }
        lemma_filter_all(s.drop_last(), p);
        assert(s.drop_last().push(s.last()) == s);
    }
}

/// A sanitized topic is the text with some characters left out; it is within the limit, trimmed and
/// free of control characters but line feeds; and sanitizing it again changes nothing.
pub proof fn law_sanitized(t: Seq<char>)
    ensures
        pieces::is_within(sanitized(t), t),
        sanitized(t).len() <= MAX_TOPIC_LENGTH,
        trim::is_trimmed(sanitized(t)),
        forall|i: int|
            0 <= i < sanitized(t).len() ==> !chars::is_control(#[trigger] sanitized(t)[i])
                || sanitized(t)[i] == '\n',
        sanitized(sanitized(t)) == sanitized(t),
{
    let kept = trim::trim(t).filter(topic_test());
    let cut = if kept.len() > MAX_TOPIC_LENGTH {
        kept.take(MAX_TOPIC_LENGTH as int)
    } else {
        kept
    };
    let r = sanitized(t);
    trim::lemma_trim(cut);
    let from = choose|i: int|
        0 <= i && i + r.len() <= cut.len() && r == #[trigger] cut.subrange(i, i + r.len());
    assert forall|i: int| 0 <= i < r.len() implies topic_test()(#[trigger] r[i]) by {
        assert(r[i] == kept[from + i]);
        trim::trim(t).lemma_filter_pred(topic_test(), from + i);
    }
    trim::lemma_trimmed_is_fixed(r);
    lemma_filter_all(r, topic_test());
    trim::lemma_trim(t);
    let n = trim::trim(t).len() as int;
    let start = choose|i: int|
        0 <= i && i + n <= t.len() && trim::trim(t) == #[trigger] t.subrange(i, i + n);
    pieces::lemma_stretch_is_within(t, start, start + n);
    pieces::lemma_filter_is_within(trim::trim(t), topic_test());
    pieces::lemma_within_within(kept, trim::trim(t), t);
    assert(r =~= kept.subrange(from, from + r.len()));
    pieces::lemma_stretch_is_within(kept, from, from + r.len());
    pieces::lemma_within_within(r, kept, t);
}

// Long messages

/// Where a text that is too long is cut: at its last line feed within the limit, else at its last
/// space, else at the limit. There is no place where the limit falls inside a character.
pub open spec fn cut_of(t: Seq<char>, max: int) -> Option<int> {
    match bytes::chars_before(t, max) {
        Some(k) => Some(
            match text::last_index(t.take(k), '\n') {
                Some(i) => i,
                None => match text::last_index(t.take(k), ' ') {
                    Some(i) => i,
                    None => k,
                },
            },
        ),
        None => None,
    }
}

/// What remains of a text after the cut.
pub open spec fn after_cut(t: Seq<char>, max: int) -> Seq<char> {
    trim::trim_start(t.skip(cut_of(t, max)->0))
}

/// Whether each cut falls between two characters and leaves less to cut.
pub open spec fn splits(t: Seq<char>, max: int) -> bool
    decreases t.len(),
{
    if t.len() == 0 || bytes::byte_len(t) <= max {
        true
    } else {
        cut_of(t, max) is Some && after_cut(t, max).len() < t.len() && splits(
            after_cut(t, max),
            max,
        )
    }
}

/// The parts of a text, none longer than the limit.
pub open spec fn parts_of(t: Seq<char>, max: int) -> Seq<Seq<char>>
    decreases t.len(),
{
    if t.len() == 0 {
        seq![]
    } else if bytes::byte_len(t) <= max {
        seq![t]
    } else if after_cut(t, max).len() < t.len() {
        seq![t.take(cut_of(t, max)->0)] + parts_of(after_cut(t, max), max)
    } else {
        seq![]
    }
}

/// The messages that a text is sent in: itself where it is short enough, else its parts.
pub open spec fn messages(t: Seq<char>, max: int) -> Seq<Seq<char>> {
    if bytes::byte_len(t) <= max {
        seq![t]
    } else {
        parts_of(t, max)
    }
}

/// Where a text that is too long is cut.
fn find_cut(x: &Vec<char>, max_len: usize) -> (r: Option<usize>)
    ensures
        r is Some <==> cut_of(x@, max_len as int) is Some,
        r matches Some(k) ==> cut_of(x@, max_len as int) == Some(k as int) && k <= x@.len(),
{
    assert(x@.skip(0) == x@);
    match bytes::index_of_byte(x, 0, max_len) {
        Some(k) => match text::position_of_last(x, '\n', k) {
            Some(i) => Some(i),
            None => match text::position_of_last(x, ' ', k) {
                Some(i) => Some(i),
                None => Some(k),
            },
        },
        None => None,
    }
}

/// The messages that a text is sent in, none longer than `max_len` bytes; `None` where a cut would
/// fall inside a character or leave as much to cut as before.
pub fn try_split_message(t: &str, max_len: usize) -> (r: Option<Vec<String>>)
    ensures
        r is Some <==> splits(t@, max_len as int),
        r matches Some(list) ==> text::views(list@) == messages(t@, max_len as int),
{
    let mut list: Vec<String> = Vec::new();
    if bytes::byte_length(t) <= max_len {
        list.push(text::copy(t));
        assert(text::views(list@) =~= seq![t@]);
        return Some(list);
    }
    let mut rest = text::copy(t);
    assert(text::views(list@) =~= seq![]);
    assert(seq![] + parts_of(t@, max_len as int) =~= parts_of(t@, max_len as int));
    while !rest.as_str().is_empty()
        invariant
            bytes::byte_len(t@) > max_len,
            splits(t@, max_len as int) == splits(rest@, max_len as int),
            splits(t@, max_len as int) ==> parts_of(t@, max_len as int) == text::views(list@)
                + parts_of(rest@, max_len as int),
        decreases rest@.len(),
    {
        let ghost before = text::views(list@);
        let ghost all = rest@;
        if bytes::byte_length(rest.as_str()) <= max_len {
            list.push(rest);
            assert(text::views(list@) =~= before + seq![all]);
            return Some(list);
        }
        let x = text::chars_of(rest.as_str());
        match find_cut(&x, max_len) {
            Some(k) => {
                let part = text::text_between(&x, 0, k);
                let after = text::text_between(&x, k, x.len());
                assert(part@ == all.take(k as int));
                assert(after@ == all.skip(k as int));
                let next = trim::trimmed_start(after.as_str());
                let shorter = text::chars_of(next.as_str()).len() < x.len();
                if !shorter {
                    return None;
                }
                list.push(part);
                assert(text::views(list@) =~= before + seq![part@]);
                assert(before + (seq![part@] + parts_of(next@, max_len as int)) =~= text::views(
                    list@,
                ) + parts_of(next@, max_len as int));
                rest = next;
            },
            None => {
                return None;
            },
        }
    }
    assert(text::views(list@) + seq![] =~= text::views(list@));
    Some(list)
}

/// The messages that a text is sent in, none longer than `max_len` bytes.
pub fn split_message(t: &str, max_len: usize) -> (r: Vec<String>)
    requires
        splits(t@, max_len as int),
    ensures
        text::views(r@) == messages(t@, max_len as int),
{
    match try_split_message(t, max_len) {
        Some(list) => list,
        None => Vec::new(),
    }
}

pub open spec fn ink_test() -> spec_fn(char) -> bool {
    |c: char| !chars::is_white(c)
}

/// The characters of a text that are not white space.
pub open spec fn inked(t: Seq<char>) -> Seq<char> {
    t.filter(ink_test())
}

/// The characters of a list of texts that are not white space.
pub open spec fn all_inked(list: Seq<Seq<char>>) -> Seq<char>
    decreases list.len(),
{
    if list.len() == 0 {
        seq![]
    } else {
        inked(list[0]) + all_inked(list.skip(1))
    }
}

proof fn lemma_inked_trim_start(t: Seq<char>)
    ensures
        inked(trim::trim_start(t)) == inked(t),
    decreases t.len(),
{
    if t.len() > 0 && chars::is_white(t[0]) {
        lemma_inked_trim_start(t.skip(1));
        let p = ink_test();
        let first = seq![t[0]];
        assert(first + t.skip(1) =~= t);
        Seq::filter_distributes_over_add(first, t.skip(1), p);
        pieces::lemma_filter_ends(first, p);
        pieces::lemma_filter_step(first, p, 0);
        assert(first.filter(p) =~= seq![]);
        assert(inked(t) =~= inked(t.skip(1)));
    }
}

proof fn lemma_parts(t: Seq<char>, max: int)
    requires
        splits(t, max),
        max >= 0,
    ensures
        forall|i: int|
            0 <= i < parts_of(t, max).len() ==> bytes::byte_len(#[trigger] parts_of(t, max)[i])
                <= max,
        all_inked(parts_of(t, max)) == inked(t),
    decreases t.len(),
{
    reveal_with_fuel(all_inked, 2);
    if t.len() == 0 {
        pieces::lemma_filter_ends(t, ink_test());
    } else if bytes::byte_len(t) <= max {
        assert(seq![t].skip(1) =~= seq![]);
        assert(inked(t) + seq![] =~= inked(t));
    } else {
        let k = bytes::chars_before(t, max)->0;
        let e = cut_of(t, max)->0;
        let rest = after_cut(t, max);
        let later = parts_of(rest, max);
        bytes::lemma_chars_before(t, max);
        text::lemma_last_index(t.take(k), '\n');
        text::lemma_last_index(t.take(k), ' ');
        bytes::lemma_byte_len_of_beginning(t, e, k);
        lemma_parts(rest, max);
        let list = seq![t.take(e)] + later;
        assert forall|i: int| 0 <= i < list.len() implies bytes::byte_len(#[trigger] list[i])
            <= max by {
            if i > 0 {
                assert(list[i] == later[i - 1]);
            }
        }
        assert(list.skip(1) =~= later);
        lemma_inked_trim_start(t.skip(e));
        assert(t.take(e) + t.skip(e) =~= t);
        Seq::filter_distributes_over_add(
            t.take(e),
            t.skip(e),
            ink_test(),
        );
    }
}

/// No message is longer than the limit, and together they hold all of the text but white space.
pub proof fn law_messages(t: Seq<char>, max: int)
    requires
        max >= 0,
        splits(t, max),
    ensures
        forall|i: int|
            0 <= i < messages(t, max).len() ==> bytes::byte_len(#[trigger] messages(t, max)[i])
                <= max,
        all_inked(messages(t, max)) == inked(t),
{
    if bytes::byte_len(t) <= max {
        reveal_with_fuel(all_inked, 2);
        assert(seq![t].skip(1) =~= seq![]);
        assert(inked(t) + seq![] =~= inked(t));
    } else {
        lemma_parts(t, max);
    }
}

// Slugs

/// Letters and digits are kept in lower case; anything else becomes a hyphen.
pub open spec fn slug_char(c: char) -> char {
    if chars::is_ascii_alphanumeric(c) {
        chars::ascii_lower(c)
    } else {
        '-'
    }
}

pub open spec fn slug_chars(t: Seq<char>) -> Seq<char> {
    Seq::new(t.len(), |i: int| slug_char(t[i]))
}

pub open spec fn nonempty_test() -> spec_fn(Seq<char>) -> bool {
    |t: Seq<char>| t.len() > 0
}

/// A text as part of a file name: runs of letters and digits with single hyphens between them.
pub open spec fn slug(t: Seq<char>) -> Seq<char> {
    pieces::join(pieces::split(slug_chars(t), '-').filter(nonempty_test()), "-"@)
}

/// Makes a text fit for a file name.
pub fn slugify(t: &str) -> (r: String)
    ensures
        r@ == slug(t@),
{
    let x = text::chars_of(t);
    let mut mapped = String::new();
    let mut i: usize = 0;
    while i < x.len()
        invariant
            i <= x@.len(),
            mapped@ == slug_chars(x@).take(i as int),
        decreases x@.len() - i,
    {
        let c = if chars::ascii_alphanumeric(x[i]) {
            chars::to_ascii_lower(x[i])
        } else {
            '-'
        };
        assert(slug_chars(x@).take(i + 1) =~= slug_chars(x@).take(i as int).push(c));
        mapped.push(c);
        i += 1;
    }
    assert(mapped@ == slug_chars(t@));
    let runs = pieces::split_at(mapped.as_str(), '-');
    let kept = nonempty(&runs);
    pieces::joined(&kept, "-")
}

/// The texts of a list that are not empty.
fn nonempty(list: &Vec<String>) -> (r: Vec<String>)
    ensures
        text::views(r@) == text::views(list@).filter(nonempty_test()),
{
    let ghost all = text::views(list@);
    let mut r: Vec<String> = Vec::new();
    let mut i: usize = 0;
    proof {
        pieces::lemma_filter_ends(all, nonempty_test());
    }
    assert(text::views(r@) =~= seq![]);
    while i < list.len()
        invariant
            i <= list@.len(),
            all == text::views(list@),
            text::views(r@) == all.take(i as int).filter(nonempty_test()),
        decreases list@.len() - i,
    {
        proof {
            pieces::lemma_filter_step(all, nonempty_test(), i as int);
        }
        let ghost before = text::views(r@);
        if !list[i].as_str().is_empty() {
            r.push(text::copy(list[i].as_str()));
            assert(text::views(r@) =~= before.push(all[i as int]));
        }
        i += 1;
    }
    proof {
        pieces::lemma_filter_ends(all, nonempty_test());
    }
    r
}

/// A letter in lower case or a digit.
pub open spec fn is_slug_letter(c: char) -> bool {
    chars::is_digit(c) || 0x61 <= c as u32 <= 0x7A
}

/// Letters in lower case and digits, with single hyphens between them.
pub open spec fn is_slug(t: Seq<char>) -> bool {
    &&& forall|i: int| 0 <= i < t.len() ==> is_slug_letter(#[trigger] t[i]) || t[i] == '-'
    &&& t.len() > 0 ==> t[0] != '-' && t.last() != '-'
    &&& forall|i: int, j: int|
        0 <= i && j == i + 1 && j < t.len() && #[trigger] t[i] == '-' ==> #[trigger] t[j] != '-'
}

/// One or more letters in lower case or digits.
spec fn is_run(t: Seq<char>) -> bool {
    t.len() > 0 && forall|i: int| 0 <= i < t.len() ==> is_slug_letter(#[trigger] t[i])
}

spec fn are_runs(list: Seq<Seq<char>>) -> bool {
    forall|i: int| 0 <= i < list.len() ==> is_run(#[trigger] list[i])
}

proof fn lemma_split_pieces(t: Seq<char>, c: char)
    ensures
        forall|i: int, j: int|
            #![trigger pieces::split(t, c)[i][j]]
            0 <= i < pieces::split(t, c).len() && 0 <= j < pieces::split(t, c)[i].len()
                ==> pieces::split(t, c)[i][j] != c && t.contains(pieces::split(t, c)[i][j]),
    decreases t.len(),
{
    let k = text::before(t, c);
    text::lemma_before(t, c);
    if k < t.len() {
        let rest = t.skip(k + 1);
        lemma_split_pieces(rest, c);
        let list = pieces::split(t, c);
        assert forall|i: int, j: int|
            #![trigger list[i][j]]
            0 <= i < list.len() && 0 <= j < list[i].len() implies list[i][j] != c && t.contains(
            list[i][j],
        ) by {
            if i == 0 {
                assert(list[0][j] == t[j]);
            } else {
                assert(list[i] == pieces::split(rest, c)[i - 1]);
                let d = pieces::split(rest, c)[i - 1][j];
                assert(rest.contains(d));
                let n = choose|n: int| 0 <= n < rest.len() && rest[n] == d;
                assert(t[n + k + 1] == d);
            }
        }
    }
}

proof fn lemma_split_concat(a: Seq<char>, b: Seq<char>, c: char)
    ensures
        pieces::split(a + seq![c] + b, c) == pieces::split(a, c) + pieces::split(b, c),
    decreases a.len(),
{
    let s = a + seq![c] + b;
    let k = text::before(a, c);
    let n = text::before(s, c);
    text::lemma_before(a, c);
    text::lemma_before(s, c);
    if k < a.len() {
        assert(s[k] == c);
        assert(n == k) by {
            if n < k {
                assert(s[n] == a[n]);
            }
        }
        assert(s.take(k) =~= a.take(k));
        assert(s.skip(k + 1) =~= a.skip(k + 1) + seq![c] + b);
        lemma_split_concat(a.skip(k + 1), b, c);
        assert(pieces::split(s, c) =~= pieces::split(a, c) + pieces::split(b, c));
    } else {
        assert(s[a.len() as int] == c);
        assert(n == a.len()) by {
            if n < a.len() {
                assert(s[n] == a[n]);
            }
        }
        assert(s.take(n) =~= a);
        assert(s.skip(n + 1) =~= b);
        assert(pieces::split(s, c) =~= pieces::split(a, c) + pieces::split(b, c));
    }
}

proof fn lemma_joined_runs(list: Seq<Seq<char>>)
    requires
        are_runs(list),
    ensures
        is_slug(pieces::join(list, "-"@)),
        list.len() > 0 ==> pieces::join(list, "-"@).len() > 0,
        list.len() > 0 ==> pieces::split(pieces::join(list, "-"@), '-') == list,
    decreases list.len(),
{
    reveal_strlit("-");
    assert("-"@ =~= seq!['-']);
    if list.len() > 0 {
        let last = list.last();
        assert(is_run(last));
        text::lemma_before(last, '-');
        assert(pieces::split(last, '-') =~= seq![last]);
        assert(list.drop_last().push(last) =~= list);
        pieces::lemma_join_push(list.drop_last(), "-"@, last);
        if list.len() > 1 {
            let front = pieces::join(list.drop_last(), "-"@);
            lemma_joined_runs(list.drop_last());
            lemma_split_concat(front, last, '-');
            assert(pieces::join(list, "-"@) == front + seq!['-'] + last);
            assert(list.drop_last() + seq![last] =~= list);
        } else {
            assert(list =~= seq![last]);
        }
    }
}

pub open spec fn slug_letter_test() -> spec_fn(char) -> bool {
    |c: char| is_slug_letter(c)
}

pub open spec fn alphanumeric_test() -> spec_fn(char) -> bool {
    |c: char| chars::is_ascii_alphanumeric(c)
}

/// The letters and digits of a list of texts.
spec fn all_letters(list: Seq<Seq<char>>) -> Seq<char>
    decreases list.len(),
{
    if list.len() == 0 {
        seq![]
    } else {
        all_letters(list.drop_last()) + list.last().filter(slug_letter_test())
    }
}

proof fn lemma_all_letters_front(t: Seq<char>, rest: Seq<Seq<char>>)
    ensures
        all_letters(seq![t] + rest) == t.filter(slug_letter_test()) + all_letters(rest),
    decreases rest.len(),
{
    let list = seq![t] + rest;
    if rest.len() == 0 {
        assert(list =~= seq![t]);
        assert(all_letters(list.drop_last()) =~= seq![]);
        assert(all_letters(list) =~= t.filter(slug_letter_test()) + all_letters(rest));
    } else {
        assert(list.drop_last() =~= seq![t] + rest.drop_last());
        assert(list.last() == rest.last());
        lemma_all_letters_front(t, rest.drop_last());
        assert(all_letters(list) =~= t.filter(slug_letter_test()) + all_letters(rest));
    }
}

/// A hyphen is neither a letter nor a digit.
proof fn lemma_hyphen_passes_not()
    ensures
        seq!['-'].filter(slug_letter_test()) == Seq::<char>::empty(),
{
    pieces::lemma_filter_ends(seq!['-'], slug_letter_test());
    pieces::lemma_filter_step(seq!['-'], slug_letter_test(), 0);
}

/// Cutting at hyphens keeps the letters and digits.
proof fn lemma_letters_of_split(t: Seq<char>)
    ensures
        all_letters(pieces::split(t, '-')) == t.filter(slug_letter_test()),
    decreases t.len(),
{
    let p = slug_letter_test();
    let k = text::before(t, '-');
    text::lemma_before(t, '-');
    if k < t.len() {
        let rest = t.skip(k + 1);
        let hyphen = seq!['-'];
        lemma_letters_of_split(rest);
        lemma_all_letters_front(t.take(k), pieces::split(rest, '-'));
        lemma_hyphen_passes_not();
        assert(t =~= t.take(k) + hyphen + rest);
        Seq::filter_distributes_over_add(t.take(k) + hyphen, rest, p);
        Seq::filter_distributes_over_add(t.take(k), hyphen, p);
        assert(t.filter(p) =~= t.take(k).filter(p) + rest.filter(p));
    } else {
        assert(seq![t] + Seq::<Seq<char>>::empty() =~= seq![t]);
        lemma_all_letters_front(t, Seq::empty());
        assert(all_letters(seq![t]) =~= t.filter(p));
    }
}

/// Dropping empty texts keeps the letters and digits.
proof fn lemma_letters_of_nonempty(list: Seq<Seq<char>>)
    ensures
        all_letters(list.filter(nonempty_test())) == all_letters(list),
    decreases list.len(),
{
    reveal(Seq::filter);
    if list.len() > 0 {
        let front = list.drop_last();
        lemma_letters_of_nonempty(front);
        if list.last().len() > 0 {
            let kept = front.filter(nonempty_test());
            assert(kept.push(list.last()).drop_last() =~= kept);
        } else {
            pieces::lemma_filter_ends(list.last(), slug_letter_test());
            assert(list.last().take(0) =~= list.last());
            assert(all_letters(list) =~= all_letters(front));
        }
    }
}

/// Joining with hyphens keeps the letters and digits.
proof fn lemma_letters_of_join(list: Seq<Seq<char>>)
    ensures
        pieces::join(list, "-"@).filter(slug_letter_test()) == all_letters(list),
    decreases list.len(),
{
    let p = slug_letter_test();
    reveal_strlit("-");
    let hyphen = "-"@;
    assert(hyphen =~= seq!['-']);
    if list.len() == 0 {
        pieces::lemma_filter_ends(Seq::<char>::empty(), p);
        assert(Seq::<char>::empty().take(0) =~= Seq::<char>::empty());
    } else if list.len() == 1 {
        assert(all_letters(list.drop_last()) =~= seq![]);
        assert(all_letters(list) =~= list[0].filter(p));
    } else {
        let front = pieces::join(list.drop_last(), hyphen);
        lemma_letters_of_join(list.drop_last());
        lemma_hyphen_passes_not();
        Seq::filter_distributes_over_add(front + hyphen, list.last(), p);
        Seq::filter_distributes_over_add(front, hyphen, p);
        assert(pieces::join(list, hyphen).filter(p) =~= all_letters(list));
    }
}

/// Replacing the other characters by hyphens keeps the letters and digits.
proof fn lemma_letters_of_slug_chars(t: Seq<char>)
    ensures
        slug_chars(t).filter(slug_letter_test()) == chars::ascii_lowered(
            t.filter(alphanumeric_test()),
        ),
    decreases t.len(),
{
    reveal(Seq::filter);
    if t.len() == 0 {
        assert(slug_chars(t).filter(slug_letter_test()) =~= chars::ascii_lowered(
            t.filter(alphanumeric_test()),
        ));
    } else {
        let front = t.drop_last();
        lemma_letters_of_slug_chars(front);
        assert(slug_chars(t).drop_last() =~= slug_chars(front));
        assert(slug_chars(t).last() == slug_char(t.last()));
        assert(slug_chars(t).filter(slug_letter_test()) =~= chars::ascii_lowered(
            t.filter(alphanumeric_test()),
        ));
    }
}

/// A slug holds nothing but letters in lower case, digits and single hyphens between them; its
/// letters and digits are those of the text, in their order; and making a slug of it again changes
/// nothing.
pub proof fn law_slug(t: Seq<char>)
    ensures
        is_slug(slug(t)),
        slug(t).filter(slug_letter_test()) == chars::ascii_lowered(t.filter(alphanumeric_test())),
        slug(slug(t)) == slug(t),
{
    lemma_letters_of_join(pieces::split(slug_chars(t), '-').filter(nonempty_test()));
    lemma_letters_of_nonempty(pieces::split(slug_chars(t), '-'));
    lemma_letters_of_split(slug_chars(t));
    lemma_letters_of_slug_chars(t);
    let all = pieces::split(slug_chars(t), '-');
    let runs = all.filter(nonempty_test());
    let s = slug(t);
    lemma_split_pieces(slug_chars(t), '-');
    assert forall|i: int| 0 <= i < runs.len() implies is_run(#[trigger] runs[i]) by {
        all.lemma_filter_pred(nonempty_test(), i);
        lemma_filter_holds(all, nonempty_test(), i);
        let n = choose|n: int| 0 <= n < all.len() && all[n] == runs[i];
        assert forall|j: int| 0 <= j < runs[i].len() implies is_slug_letter(
            #[trigger] runs[i][j],
        ) by {
            let c = all[n][j];
            assert(slug_chars(t).contains(c));
            let m = choose|m: int| 0 <= m < slug_chars(t).len() && slug_chars(t)[m] == c;
            assert(slug_char(t[m]) == c);
        }
    }
    lemma_joined_runs(runs);
    assert(slug_chars(s) =~= s);
    if runs.len() > 0 {
        lemma_filter_all(runs, nonempty_test());
    } else {
        assert(s =~= seq![]);
        reveal_with_fuel(pieces::split, 2);
        text::lemma_before(s, '-');
        assert(pieces::split(s, '-') =~= seq![s]);
        pieces::lemma_filter_ends(seq![s], nonempty_test());
        pieces::lemma_filter_step(seq![s], nonempty_test(), 0);
        assert(seq![s].filter(nonempty_test()) =~= seq![]);
    }
}

/// What a filter lets through is in the list.
proof fn lemma_filter_holds<A>(s: Seq<A>, p: spec_fn(A) -> bool, i: int)
    requires
        0 <= i < s.filter(p).len(),
    ensures
        s.contains(s.filter(p)[i]),
    decreases s.len(),
{
    reveal(Seq::filter);
    if s.len() > 0 {
        let before = s.drop_last().filter(p);
        if i < before.len() {
            lemma_filter_holds(s.drop_last(), p, i);
            let n = choose|n: int| 0 <= n < s.drop_last().len() && s.drop_last()[n] == before[i];
            assert(s[n] == before[i]);
        } else {
            assert(s[s.len() - 1] == s.last());
        }
    }
}

// Labels of web sources

/// A text without the prefixes `www.` that it begins with.
pub open spec fn without_www(s: Seq<char>) -> Seq<char>
    decreases s.len(),
{
    match text::strip_prefix(s, "www."@) {
        Some(rest) => if rest.len() < s.len() {
            without_www(rest)
        } else {
            s
        },
        None => s,
    }
}

/// The host that a URL names, without its scheme and `www.`.
pub open spec fn domain(url: Seq<char>) -> Seq<char> {
    let bare = match text::strip_prefix(url, "https://"@) {
        Some(rest) => rest,
        None => match text::strip_prefix(url, "http://"@) {
            Some(rest) => rest,
            None => url,
        },
    };
    without_www(bare.take(text::before(bare, '/')))
}

/// The label of a web source: the host that its URL names.
pub fn domain_label(url: &str) -> (r: String)
    ensures
        r@ == domain(url@),
{
    let bare = match text::without_prefix(url, "https://") {
        Some(rest) => rest,
        None => match text::without_prefix(url, "http://") {
            Some(rest) => rest,
            None => text::copy(url),
        },
    };
    let x = text::chars_of(bare.as_str());
    assert(x@.skip(0) == bare@);
    let k = text::count_before(&x, '/', 0);
    let mut host = text::text_between(&x, 0, k);
    assert(host@ == bare@.take(k as int));
    let ghost start = host@;
    while text::starts_with(host.as_str(), "www.")
        invariant
            without_www(start) == without_www(host@),
        decreases host@.len(),
    {
        proof {
            reveal_strlit("www.");
        }
        match text::without_prefix(host.as_str(), "www.") {
            Some(rest) => {
                assert(rest@.len() < host@.len());
                host = rest;
            },
            None => {
                return host;
            },
        }
    }
    host
}

// Years

/// The runs of digits in a text.
pub open spec fn digit_runs(s: Seq<char>) -> Seq<Seq<char>>
    decreases s.len(),
{
    if s.len() == 0 {
        seq![]
    } else if chars::is_digit(s[0]) {
        let k = numbers::digits_before(s);
        proof {
            numbers::lemma_digits_before(s);
        }
        if k > 0 {
            seq![s.take(k)] + digit_runs(s.skip(k))
        } else {
            seq![]
        }
    } else {
        digit_runs(s.skip(1))
    }
}

/// A run of four digits that stands for a year from 1900 to 2100.
pub open spec fn is_year(run: Seq<char>) -> bool {
    run.len() == 4 && 1900 <= numbers::value(run) <= 2100
}

/// The first year in a list of runs of digits.
pub open spec fn first_year(runs: Seq<Seq<char>>) -> Option<int>
    decreases runs.len(),
{
    if runs.len() == 0 {
        None
    } else if is_year(runs[0]) {
        Some(numbers::value(runs[0]) as int)
    } else {
        first_year(runs.skip(1))
    }
}

/// The first year that a text names.
pub open spec fn year_named(t: Seq<char>) -> Option<int> {
    first_year(digit_runs(t))
}

/// The first year from 1900 to 2100 that a text names.
pub fn find_year_hint(t: &str) -> (r: Option<i32>)
    ensures
        r is Some <==> year_named(t@) is Some,
        r matches Some(y) ==> year_named(t@) == Some(y as int),
{
    let x = text::chars_of(t);
    let mut i: usize = 0;
    assert(x@.skip(0) == x@);
    while i < x.len()
        invariant
            i <= x@.len(),
            x@ == t@,
            year_named(x@) == first_year(digit_runs(x@.skip(i as int))),
        decreases x@.len() - i,
    {
        let ghost rest = x@.skip(i as int);
        if chars::digit(x[i]) {
            let k = numbers::count_digits(&x, i);
            proof {
                numbers::lemma_digits_before(rest);
            }
            assert(k > 0);
            assert(rest.skip(k as int) == x@.skip(i + k));
            let ghost run = rest.take(k as int);
            let ghost later = digit_runs(x@.skip(i + k));
            assert((seq![run] + later).skip(1) == later);
            assert((seq![run] + later)[0] == run);
            if k == 4 {
                let run_text = text::text_between(&x, i, i + k);
                assert(run_text@ == run);
                proof {
                    lemma_numeral(run);
                }
                match numbers::parse_number(run_text.as_str(), 0, 9999) {
                    Some(n) => {
                        if 1900 <= n && n <= 2100 {
                            return Some(n as i32);
                        }
                    },
                    None => {},
                }
            }
            i += k;
        } else {
            assert(rest.skip(1) == x@.skip(i + 1));
            i += 1;
        }
    }
    assert(x@.skip(i as int) =~= seq![]);
    None
}

/// Four digits are a numeral below ten thousand.
proof fn lemma_numeral(run: Seq<char>)
    requires
        run.len() == 4,
        forall|i: int| 0 <= i < 4 ==> chars::is_digit(run[i]),
    ensures
        numbers::parse_between(run, 0, 9999) == Some(numbers::value(run) as int),
{
    reveal_with_fuel(numbers::value, 5);
    assert(numbers::all_digits(run));
    assert(run.drop_last().drop_last().drop_last().drop_last().len() == 0);
}

// Captions

/// The text between the `text` tags of a caption document, a space behind each of them.
pub open spec fn tagged_text(s: Seq<char>, inside: bool) -> Seq<char>
    decreases s.len(),
{
    if s.len() == 0 {
        seq![]
    } else if s[0] == '<' {
        let k = text::before(s.skip(1), '>');
        proof {
            text::lemma_before(s.skip(1), '>');
        }
        let tag = s.skip(1).take(k);
        let rest = if k + 1 < s.len() {
            s.skip(k + 2)
        } else {
            s.skip(s.len() as int)
        };
        if "text"@.is_prefix_of(tag) {
            tagged_text(rest, true)
        } else if tag == "/text"@ {
            seq![' '] + tagged_text(rest, false)
        } else {
            tagged_text(rest, inside)
        }
    } else if inside {
        seq![s[0]] + tagged_text(s.skip(1), true)
    } else {
        tagged_text(s.skip(1), false)
    }
}

/// A text with the five common entities replaced by the characters that they stand for.
pub open spec fn unescaped(s: Seq<char>) -> Seq<char> {
    let a = pieces::replace(s, "&amp;"@, "&"@);
    let b = pieces::replace(a, "&lt;"@, "<"@);
    let c = pieces::replace(b, "&gt;"@, ">"@);
    let d = pieces::replace(c, "&quot;"@, "\""@);
    pieces::replace(d, "&#39;"@, "'"@)
}

/// The transcript that a caption document holds.
pub open spec fn transcript(xml: Seq<char>) -> Seq<char> {
    trim::trim(unescaped(tagged_text(xml, false)))
}

/// Extracts the transcript from a caption document.
pub fn extract_text_from_xml(xml: &str) -> (r: String)
    ensures
        r@ == transcript(xml@),
{
    let x = text::chars_of(xml);
    let mut found = String::new();
    let mut inside = false;
    let mut i: usize = 0;
    assert(x@.skip(0) == x@);
    assert(found@ =~= seq![]);
    while i < x.len()
        invariant
            i <= x@.len(),
            tagged_text(x@, false) == found@ + tagged_text(x@.skip(i as int), inside),
        decreases x@.len() - i,
    {
        let ghost rest = x@.skip(i as int);
        let ghost so_far = found@;
        if x[i] == '<' {
            assert(rest.skip(1) == x@.skip(i + 1));
            let k = text::count_before(&x, '>', i + 1);
            let tag = text::text_between(&x, i + 1, i + 1 + k);
            assert(tag@ == rest.skip(1).take(k as int));
            let next = if i + 1 + k < x.len() {
                i + 1 + k + 1
            } else {
                x.len()
            };
            assert(x@.skip(next as int) == if k + 1 < rest.len() {
                rest.skip(k + 2)
            } else {
                rest.skip(rest.len() as int)
            });
            if text::starts_with(tag.as_str(), "text") {
                inside = true;
            } else if text::same(tag.as_str(), "/text") {
                inside = false;
                found.push(' ');
                assert(found@ =~= so_far + seq![' ']);
                assert(so_far + (seq![' '] + tagged_text(x@.skip(next as int), false)) =~= found@
                    + tagged_text(x@.skip(next as int), false));
            }
            i = next;
        } else {
            assert(rest.skip(1) == x@.skip(i + 1));
            if inside {
                found.push(x[i]);
                assert(so_far + (seq![rest[0]] + tagged_text(x@.skip(i + 1), true)) =~= found@
                    + tagged_text(x@.skip(i + 1), true));
            }
            i += 1;
        }
    }
    assert(x@.skip(i as int) =~= seq![]);
    assert(found@ =~= tagged_text(xml@, false));
    proof {
        reveal_strlit("&amp;");
        reveal_strlit("&lt;");
        reveal_strlit("&gt;");
        reveal_strlit("&quot;");
        reveal_strlit("&#39;");
    }
    let a = pieces::replaced(found.as_str(), "&amp;", "&");
    let b = pieces::replaced(a.as_str(), "&lt;", "<");
    let c = pieces::replaced(b.as_str(), "&gt;", ">");
    let d = pieces::replaced(c.as_str(), "&quot;", "\"");
    let e = pieces::replaced(d.as_str(), "&#39;", "'");
    trim::trimmed(e.as_str())
}

// JSON objects in replies

/// Whether the first opening brace of a text comes after its last closing one, and not next to it.
pub open spec fn braces_cross(t: Seq<char>) -> bool {
    match text::last_index(t, '}') {
        Some(end) => text::before(t, '{') < t.len() && text::before(t, '{') > end + 1,
        None => false,
    }
}

/// From the first opening brace of a text to its last closing one.
pub open spec fn braced(t: Seq<char>) -> Result<Seq<char>, Seq<char>> {
    if text::before(t, '{') >= t.len() {
        Err("No JSON object start found in planner response"@)
    } else {
        match text::last_index(t, '}') {
            Some(end) => Ok(t.subrange(text::before(t, '{'), end + 1)),
            None => Err("No JSON object end found in planner response"@),
        }
    }
}

/// Whether the braces of a text cross, so that no object can be cut from it.
pub fn has_crossed_braces(t: &str) -> (r: bool)
    ensures
        r == braces_cross(t@),
{
    let x = text::chars_of(t);
    assert(x@.skip(0) == x@);
    assert(x@.take(x@.len() as int) == x@);
    let start = text::count_before(&x, '{', 0);
    match text::position_of_last(&x, '}', x.len()) {
        Some(end) => start < x.len() && start > end + 1,
        None => false,
    }
}

/// Cuts a JSON object from the prose or the fence around it.
pub fn extract_json_object(t: &str) -> (r: Result<String, String>)
    requires
        !braces_cross(t@),
    ensures
        r is Ok <==> braced(t@) is Ok,
        r matches Ok(s) ==> braced(t@) == Ok::<Seq<char>, Seq<char>>(s@),
        r matches Err(e) ==> braced(t@) == Err::<Seq<char>, Seq<char>>(e@),
{
    let x = text::chars_of(t);
    assert(x@.skip(0) == x@);
    assert(x@.take(x@.len() as int) == x@);
    let start = text::count_before(&x, '{', 0);
    if start >= x.len() {
        return Err(text::copy("No JSON object start found in planner response"));
    }
    match text::position_of_last(&x, '}', x.len()) {
        Some(end) => Ok(text::text_between(&x, start, end + 1)),
        None => Err(text::copy("No JSON object end found in planner response")),
    }
}

/// Where the first opening brace stands before the last closing one, what is cut out begins with
/// the one and ends with the other.
pub proof fn law_braced(t: Seq<char>)
    requires
        text::last_index(t, '}') matches Some(end) && text::before(t, '{') < end,
    ensures
        braced(t) matches Ok(s) && s.len() > 0 && s[0] == '{' && s.last() == '}',
{
    text::lemma_before(t, '{');
    text::lemma_last_index(t, '}');
}

} // verus!
