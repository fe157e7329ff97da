//! Texts: how they come apart, what is kept of them, and what they name.

use crate::bytes;
use crate::chars;
use crate::excerpt;
use crate::numbers;
use crate::outline;
use crate::pieces;
use crate::text;
use crate::trim;
use vstd::prelude::*;

verus! {

// Numbers

/// A number reads back from its decimal form, which holds digits only and no zero in front.
pub proof fn law_numbers_read_back(n: nat)
    ensures
        numbers::value(numbers::decimal(n)) == n,
        numbers::decimal(n).len() > 0,
        numbers::all_digits(numbers::decimal(n)),
        n > 0 ==> numbers::decimal(n)[0] != '0',
        numbers::parse(numbers::decimal(n), false) == Some(n as int),
    decreases n,
{
    let s = numbers::decimal(n);
    let last = numbers::digit_char(n % 10);
    assert(chars::is_digit(last));
    if n >= 10 {
        let front = numbers::decimal(n / 10);
        law_numbers_read_back(n / 10);
        assert(s.drop_last() =~= front);
        assert(s.last() == last);
        assert forall|i: int| 0 <= i < s.len() implies #[trigger] chars::is_digit(s[i]) by {
            if i < front.len() {
                assert(s[i] == front[i]);
                assert(chars::is_digit(front[i]));
            }
        }
        assert(s[0] == front[0]);
    } else {
        assert(s.drop_last() =~= Seq::<char>::empty());
        assert(s.last() == last);
        reveal_with_fuel(numbers::value, 2);
    }
    assert(chars::is_digit(s[0]));
    assert(s[0] != '+');
}

/// A number with a minus in front reads back where a sign may stand, and nowhere else; a text with a
/// character that is no digit behind its sign is no number.
pub proof fn law_negative_numbers_read_back(n: nat, t: Seq<char>, i: int)
    ensures
        numbers::parse(seq!['-'] + numbers::decimal(n), true) == Some(-(n as int)),
        numbers::parse(seq!['-'] + numbers::decimal(n), false) is None,
        0 < i < t.len() && !chars::is_digit(t[i]) ==> numbers::parse(t, true) is None
            && numbers::parse(t, false) is None,
{
    law_numbers_read_back(n);
    let s = seq!['-'] + numbers::decimal(n);
    assert(s.skip(1) =~= numbers::decimal(n));
    assert(!chars::is_digit('-'));
    assert(s[0] == '-');
    assert(!numbers::all_digits(s)) by {
        assert(!chars::is_digit(s[0]));
    }
    if 0 < i < t.len() && !chars::is_digit(t[i]) {
        assert(t.skip(1)[i - 1] == t[i]);
        assert(!numbers::all_digits(t));
        assert(!numbers::all_digits(t.skip(1)));
    }
}

// Characters

/// The space, the tab, the line break and the return are white, and no visible ASCII character is;
/// the breaks and the tab are control characters, and no visible ASCII character or space is.
pub proof fn law_characters(c: char)
    ensures
        c == ' ' || c == '\t' || c == '\n' || c == '\r' ==> chars::is_white(c),
        '!' <= c <= '~' ==> !chars::is_white(c),
        c == '\t' || c == '\n' || c == '\r' ==> chars::is_control(c),
        ' ' <= c <= '~' ==> !chars::is_control(c),
        chars::is_digit(c) <==> '0' <= c <= '9',
        chars::is_ascii_letter(c) <==> 'a' <= c <= 'z' || 'A' <= c <= 'Z',
{
}

/// Texts stand in the order of their characters: the first difference decides, and a beginning comes
/// before what it begins.
pub proof fn law_order_of_texts(
    a: Seq<char>,
    c: char,
    b: Seq<char>,
    d: char,
    e: Seq<char>,
)
    ensures
        (c as int) < (d as int) ==> outline::precedes(a + (seq![c] + b), a + (seq![d] + e)),
        (c as int) > (d as int) ==> !outline::precedes(a + (seq![c] + b), a + (seq![d] + e)),
        outline::precedes(a, a + (seq![c] + b)),
        !outline::precedes(a + (seq![c] + b), a),
        !outline::precedes(a, a),
    decreases a.len(),
{
    let x = a + (seq![c] + b);
    let y = a + (seq![d] + e);
    if a.len() == 0 {
        assert(x[0] == c && y[0] == d);
    } else {
        law_order_of_texts(a.skip(1), c, b, d, e);
        assert(x.skip(1) =~= a.skip(1) + (seq![c] + b));
        assert(y.skip(1) =~= a.skip(1) + (seq![d] + e));
        assert(x[0] == a[0] && y[0] == a[0]);
    }
}

// Coming apart

proof fn lemma_before_in_front(a: Seq<char>, c: char, b: Seq<char>)
    requires
        !a.contains(c),
    ensures
        text::before(a + seq![c] + b, c) == a.len(),
        text::before(a, c) == a.len(),
{
    let s = a + seq![c] + b;
    let k = text::before(s, c);
    text::lemma_before(s, c);
    text::lemma_before(a, c);
    assert(s[a.len() as int] == c);
    if k < a.len() {
        assert(a[k] == c);
    }
    if text::before(a, c) < a.len() {
        assert(a.contains(a[text::before(a, c)]));
    }
}

/// The first line of a text is what stands before the first line break, without a return at its
/// end, and the other lines are those of what stands behind it; a text without a break is one line.
pub proof fn law_lines_come_apart(a: Seq<char>, b: Seq<char>)
    requires
        !a.contains('\n'),
    ensures
        pieces::lines(a + seq!['\n'] + b) == seq![pieces::without_return(a)] + pieces::lines(b),
        a.len() > 0 ==> pieces::lines(a) == seq![a],
        pieces::lines(Seq::<char>::empty()) == Seq::<Seq<char>>::empty(),
        a.len() > 0 && a.last() == '\r' ==> pieces::without_return(a) == a.drop_last(),
        a.len() == 0 || a.last() != '\r' ==> pieces::without_return(a) == a,
{
    lemma_before_in_front(a, '\n', b);
    let s = a + seq!['\n'] + b;
    assert(s.take(a.len() as int) =~= a);
    assert(s.skip(a.len() as int + 1) =~= b);
}

/// Lines that are joined by line breaks are the text, where it holds no return and does not end in a
/// line break.
pub proof fn law_lines_join_back(t: Seq<char>)
    requires
        !t.contains('\r'),
        t.len() > 0 ==> t.last() != '\n',
    ensures
        pieces::join(pieces::lines(t), "\n"@) == t,
        t.len() > 0 ==> pieces::lines(t).len() > 0,
    decreases t.len(),
{
    let k = text::before(t, '\n');
    text::lemma_before(t, '\n');
    reveal_strlit("\n");
    assert("\n"@ =~= seq!['\n']);
    if t.len() == 0 {
    } else if k >= t.len() {
    } else {
        let a = t.take(k);
        let b = t.skip(k + 1);
        assert(b.len() > 0) by {
            if b.len() == 0 {
                assert(t.last() == t[k]);
            }
        }
        assert(b.last() == t.last());
        assert(!b.contains('\r')) by {
            if b.contains('\r') {
                let i = choose|i: int| 0 <= i < b.len() && b[i] == '\r';
                assert(t[k + 1 + i] == '\r');
            }
        }
        law_lines_join_back(b);
        assert(pieces::without_return(a) == a) by {
            if a.len() > 0 && a.last() == '\r' {
                assert(t[k - 1] == '\r');
            }
        }
        lemma_join_first(a, pieces::lines(b), "\n"@);
        assert(t =~= a + "\n"@ + b);
    }
}

/// What is joined begins with the first text.
pub proof fn lemma_join_first(a: Seq<char>, list: Seq<Seq<char>>, sep: Seq<char>)
    requires
        list.len() > 0,
    ensures
        pieces::join(seq![a] + list, sep) == a + sep + pieces::join(list, sep),
    decreases list.len(),
{
    let all = seq![a] + list;
    if list.len() == 1 {
        assert(all.drop_last() =~= seq![a]);
        assert(all.last() == list[0]);
        reveal_with_fuel(pieces::join, 2);
    } else {
        lemma_join_first(a, list.drop_last(), sep);
        assert(all.drop_last() =~= seq![a] + list.drop_last());
        assert(all.last() == list.last());
        assert(a + sep + pieces::join(list.drop_last(), sep) + sep + list.last() =~= a + sep + (
        pieces::join(list.drop_last(), sep) + sep + list.last()));
    }
}

/// The first piece of a text is what stands before the first separator, and the other pieces are
/// those of what stands behind it; a text without one is one piece.
pub proof fn law_texts_split(a: Seq<char>, c: char, b: Seq<char>)
    requires
        !a.contains(c),
    ensures
        pieces::split(a + seq![c] + b, c) == seq![a] + pieces::split(b, c),
        pieces::split(a, c) == seq![a],
{
    lemma_before_in_front(a, c, b);
    let s = a + seq![c] + b;
    assert(s.take(a.len() as int) =~= a);
    assert(s.skip(a.len() as int + 1) =~= b);
}

/// The first word of a text ends before white space, and the other words are those of what stands
/// behind it; white space in front changes nothing.
pub proof fn law_words_come_apart(w: Seq<char>, c: char, b: Seq<char>)
    requires
        w.len() > 0,
        forall|i: int| 0 <= i < w.len() ==> !chars::is_white(#[trigger] w[i]),
        chars::is_white(c),
    ensures
        pieces::words(w + seq![c] + b) == seq![w] + pieces::words(b),
        pieces::words(w) == seq![w],
        pieces::words(seq![c] + b) == pieces::words(b),
        pieces::words(Seq::<char>::empty()) == Seq::<Seq<char>>::empty(),
{
    let s = w + seq![c] + b;
    assert(s[0] == w[0]);
    assert(trim::trim_start(s) == s);
    assert(trim::trim_start(w) == w);
    let k = pieces::word_length(s);
    pieces::lemma_word_length(s);
    assert(s[w.len() as int] == c);
    assert(k == w.len()) by {
        if k < w.len() {
            assert(s[k] == w[k]);
        }
    }
    assert(s.take(k) =~= w);
    assert(s.skip(k) =~= seq![c] + b);
    assert((seq![c] + b).skip(1) =~= b);
    assert(pieces::words(seq![c] + b) == pieces::words(b));
    assert(pieces::words(s) == seq![w] + pieces::words(seq![c] + b));
    let m = pieces::word_length(w);
    pieces::lemma_word_length(w);
    assert(m == w.len());
    assert(w.take(m) =~= w);
    assert(w.skip(m) =~= Seq::<char>::empty());
    assert(pieces::words(Seq::<char>::empty()) =~= Seq::<Seq<char>>::empty());
    assert(pieces::words(w) == seq![w] + pieces::words(Seq::<char>::empty()));
}

// Replacing

/// A text that does not hold what is replaced stays.
pub proof fn law_nothing_to_replace(s: Seq<char>, from: Seq<char>, to: Seq<char>)
    requires
        !text::contains(s, from),
    ensures
        pieces::replace(s, from, to) == s,
    decreases s.len(),
{
    if s.len() > 0 && from.len() > 0 {
        if from.is_prefix_of(s) {
            assert(text::occurs_at(s, from, 0));
        }
        let t = s.skip(1);
        assert(!text::contains(t, from)) by {
            if text::contains(t, from) {
                let i = choose|i: int| text::occurs_at(t, from, i);
                assert(s.subrange(i + 1, i + 1 + from.len()) =~= t.subrange(i, i + from.len()));
                assert(text::occurs_at(s, from, i + 1));
            }
        }
        law_nothing_to_replace(t, from, to);
        assert(seq![s[0]] + t =~= s);
    }
}

/// The first place where a text holds what is replaced is replaced, and what stands behind it is
/// gone through in the same way.
pub proof fn law_first_is_replaced(s: Seq<char>, from: Seq<char>, to: Seq<char>, k: int)
    requires
        from.len() > 0,
        text::occurs_at(s, from, k),
        forall|i: int| 0 <= i < k ==> !text::occurs_at(s, from, i),
    ensures
        pieces::replace(s, from, to) == s.take(k) + to + pieces::replace(
            s.skip(k + from.len()),
            from,
            to,
        ),
    decreases k,
{
    if k == 0 {
        assert(from.is_prefix_of(s));
        assert(s.skip(k + from.len()) =~= s.skip(from.len() as int));
        assert(s.take(0) + to =~= to);
    } else {
        assert(!from.is_prefix_of(s)) by {
            if from.is_prefix_of(s) {
                assert(text::occurs_at(s, from, 0));
            }
        }
        let t = s.skip(1);
        assert(t.subrange(k - 1, k - 1 + from.len()) =~= s.subrange(k, k + from.len()));
        assert forall|i: int| 0 <= i < k - 1 implies !text::occurs_at(t, from, i) by {
            assert(t.subrange(i, i + from.len()) =~= s.subrange(i + 1, i + 1 + from.len())
                || i + from.len() > t.len());
            assert(!text::occurs_at(s, from, i + 1));
        }
        law_first_is_replaced(t, from, to, k - 1);
        assert(t.skip(k - 1 + from.len()) =~= s.skip(k + from.len()));
        let rest = pieces::replace(s.skip(k + from.len()), from, to);
        assert(seq![s[0]] + (t.take(k - 1) + to + rest) =~= s.take(k) + to + rest);
    }
}

// What is kept

/// A text that is too long is cut at the last space of what fits, or where it ends to fit where that
/// has no space.
pub proof fn law_cut_at_the_last_space(t: Seq<char>, max: int, fit: int)
    requires
        max >= 0,
        bytes::byte_len(t) > max,
        0 <= fit < t.len(),
        bytes::byte_len(t.take(fit)) <= max,
        bytes::byte_len(t.take(fit + 1)) > max,
    ensures
        !t.take(fit).contains(' ') ==> excerpt::truncated(t, max) == t.take(fit) + "..."@,
        forall|n: int|
            0 <= n < fit && t[n] == ' ' && (forall|i: int| n < i < fit ==> t[i] != ' ')
                ==> excerpt::truncated(t, max) == #[trigger] t.take(n) + "..."@,
{
    let k = bytes::fitting(t, max);
    bytes::lemma_fitting(t, max);
    if k < fit {
        bytes::lemma_byte_len_of_beginning(t, k + 1, fit);
    } else if k > fit {
        bytes::lemma_byte_len_of_beginning(t, fit + 1, k);
    }
    let kept = t.take(fit);
    text::lemma_last_index(kept, ' ');
    match text::last_index(kept, ' ') {
        Some(p) => {
            assert(kept[p] == ' ');
            assert(kept.contains(' '));
            assert forall|n: int|
                0 <= n < fit && t[n] == ' ' && (forall|i: int| n < i < fit ==> t[i] != ' ')
                implies excerpt::truncated(t, max) == #[trigger] t.take(n) + "..."@ by {
                assert(kept[n] == ' ');
                assert(t[p] == ' ');
                assert(n == p);
                assert(kept.take(p) =~= t.take(n));
            }
        },
        None => {
            assert forall|n: int|
                0 <= n < fit && t[n] == ' ' && (forall|i: int| n < i < fit ==> t[i] != ' ')
                implies excerpt::truncated(t, max) == #[trigger] t.take(n) + "..."@ by {
                assert(kept[n] == ' ');
            }
        },
    }
}

/// A topic without control characters, without white space at its ends and of no more than 500
/// characters stays as it is; a longer one is cut to its first 500 characters.
pub proof fn law_plain_topics_stay(t: Seq<char>)
    requires
        trim::is_trimmed(t),
        forall|i: int| 0 <= i < t.len() ==> !chars::is_control(#[trigger] t[i]) || t[i] == '\n',
    ensures
        t.len() <= 500 ==> excerpt::sanitized(t) == t,
        t.len() > 500 ==> excerpt::sanitized(t) == trim::trim(t.take(500)),
{
    trim::lemma_trimmed_is_fixed(t);
    excerpt::lemma_filter_all(t, excerpt::topic_test());
}

/// Of a reply the object is taken, from the first opening brace to the last closing one.
pub proof fn law_objects_are_found(a: Seq<char>, m: Seq<char>, b: Seq<char>)
    requires
        !a.contains('{'),
        !b.contains('}'),
    ensures
        excerpt::braced(a + seq!['{'] + m + seq!['}'] + b) == Ok::<Seq<char>, Seq<char>>(
            seq!['{'] + m + seq!['}'],
        ),
        excerpt::braced(a) is Err,
        !m.contains('}') && !a.contains('}') ==> excerpt::braced(a + seq!['{'] + m) is Err,
{
    let t = a + seq!['{'] + m + seq!['}'] + b;
    lemma_before_in_front(a, '{', m + seq!['}'] + b);
    assert(t =~= a + seq!['{'] + (m + seq!['}'] + b));
    text::lemma_last_index(t, '}');
    let end = (a.len() + 1 + m.len()) as int;
    assert(t[end] == '}');
    match text::last_index(t, '}') {
        Some(e) => {
            assert(e == end) by {
                if e > end {
                    assert(t[e] == b[e - end - 1]);
                }
            }
            assert(t.subrange(a.len() as int, end + 1) =~= seq!['{'] + m + seq!['}']);
        },
        None => {},
    }
    lemma_before_in_front(a, '{', m);
    let u = a + seq!['{'] + m;
    text::lemma_last_index(u, '}');
    if !m.contains('}') && !a.contains('}') {
        match text::last_index(u, '}') {
            Some(e) => {
                if e < a.len() {
                    assert(a[e] == '}');
                } else if e > a.len() {
                    assert(m[e - a.len() - 1] == '}');
                }
            },
            None => {},
        }
    }
}

/// What stands between the tags of captions is taken, with a space behind it; what stands elsewhere
/// is not.
pub proof fn law_captions_are_taken(
    skipped: Seq<char>,
    attributes: Seq<char>,
    t: Seq<char>,
    rest: Seq<char>,
)
    requires
        !skipped.contains('<'),
        !attributes.contains('>'),
        !t.contains('<'),
    ensures
        excerpt::tagged_text(
            skipped + ("<text"@ + attributes + seq!['>'] + (t + ("</text>"@ + rest))),
            false,
        ) == t + (seq![' '] + excerpt::tagged_text(rest, false)),
        excerpt::tagged_text(skipped, false) == Seq::<char>::empty(),
{
    reveal_strlit("<text");
    reveal_strlit("text");
    reveal_strlit("</text>");
    reveal_strlit("/text");
    let last = "</text>"@ + rest;
    let body = t + last;
    let open = "<text"@ + attributes + seq!['>'] + body;
    lemma_outside(skipped, open);
    let inner = "text"@ + attributes;
    assert(!inner.contains('>')) by {
        if inner.contains('>') {
            let i = choose|i: int| 0 <= i < inner.len() && inner[i] == '>';
            if i >= 4 {
                assert(attributes[i - 4] == '>');
            }
        }
    }
    lemma_before_in_front(inner, '>', body);
    assert(open.skip(1) =~= inner + seq!['>'] + body);
    let k = inner.len() as int;
    assert(open.skip(1).take(k) =~= inner);
    assert("text"@.is_prefix_of(inner)) by {
        assert(inner.subrange(0, 4) =~= "text"@);
    }
    assert(open.skip(k + 2) =~= body);
    assert(open[0] == '<');
    assert(excerpt::tagged_text(open, false) == excerpt::tagged_text(body, true));
    lemma_inside(t, last);
    let name = "/text"@;
    assert(!name.contains('>'));
    lemma_before_in_front(name, '>', rest);
    assert(last.skip(1) =~= name + seq!['>'] + rest);
    assert(last.skip(1).take(5) =~= name);
    assert(last.skip(7) =~= rest);
    assert(name[0] == '/' && "text"@[0] == 't');
    assert(!"text"@.is_prefix_of(name)) by {
        if "text"@.is_prefix_of(name) {
            assert(name.subrange(0, 4)[0] == "text"@[0]);
        }
    }
    assert(last[0] == '<');
    lemma_outside(skipped, Seq::empty());
    assert(skipped + Seq::<char>::empty() =~= skipped);
}

proof fn lemma_outside(a: Seq<char>, b: Seq<char>)
    requires
        !a.contains('<'),
    ensures
        excerpt::tagged_text(a + b, false) == excerpt::tagged_text(b, false),
    decreases a.len(),
{
    if a.len() == 0 {
        assert(a + b =~= b);
    } else {
        let rest = a.skip(1);
        assert(a.contains(a[0]));
        assert(!rest.contains('<')) by {
            if rest.contains('<') {
                let i = choose|i: int| 0 <= i < rest.len() && rest[i] == '<';
                assert(a[i + 1] == '<');
            }
        }
        lemma_outside(rest, b);
        assert((a + b).skip(1) =~= rest + b);
        assert((a + b)[0] == a[0]);
    }
}

proof fn lemma_inside(a: Seq<char>, b: Seq<char>)
    requires
        !a.contains('<'),
    ensures
        excerpt::tagged_text(a + b, true) == a + excerpt::tagged_text(b, true),
    decreases a.len(),
{
    if a.len() == 0 {
        assert(a + b =~= b);
        assert(a + excerpt::tagged_text(b, true) =~= excerpt::tagged_text(b, true));
    } else {
        let rest = a.skip(1);
        assert(a.contains(a[0]));
        assert(!rest.contains('<')) by {
            if rest.contains('<') {
                let i = choose|i: int| 0 <= i < rest.len() && rest[i] == '<';
                assert(a[i + 1] == '<');
            }
        }
        lemma_inside(rest, b);
        assert((a + b).skip(1) =~= rest + b);
        assert((a + b)[0] == a[0]);
        assert(seq![a[0]] + (rest + excerpt::tagged_text(b, true)) =~= a + excerpt::tagged_text(
            b,
            true,
        ));
    }
}

/// A text without an ampersand has nothing to be unescaped, and stays; each escape becomes what it
/// stands for.
pub proof fn law_escapes_are_read(a: Seq<char>, b: Seq<char>)
    requires
        !a.contains('&'),
        !b.contains('&'),
    ensures
        excerpt::unescaped(a) == a,
        excerpt::unescaped(a + "&lt;"@ + b) == a + "<"@ + b,
        excerpt::unescaped(a + "&gt;"@ + b) == a + ">"@ + b,
        excerpt::unescaped(a + "&quot;"@ + b) == a + "\""@ + b,
        excerpt::unescaped(a + "&#39;"@ + b) == a + "'"@ + b,
{
    reveal_strlit("&amp;");
    reveal_strlit("&lt;");
    reveal_strlit("&gt;");
    reveal_strlit("&quot;");
    reveal_strlit("&#39;");
    reveal_strlit("<");
    reveal_strlit(">");
    reveal_strlit("\"");
    reveal_strlit("'");
    lemma_no_escape(a);
    lemma_escape(a, "&lt;"@, "<"@, b);
    lemma_escape(a, "&gt;"@, ">"@, b);
    lemma_escape(a, "&quot;"@, "\""@, b);
    lemma_escape(a, "&#39;"@, "'"@, b);
    lemma_other_escape(a, "&lt;"@, b, "&amp;"@);
    lemma_other_escape(a, "&gt;"@, b, "&amp;"@);
    lemma_other_escape(a, "&gt;"@, b, "&lt;"@);
    lemma_other_escape(a, "&quot;"@, b, "&amp;"@);
    lemma_other_escape(a, "&quot;"@, b, "&lt;"@);
    lemma_other_escape(a, "&quot;"@, b, "&gt;"@);
    lemma_other_escape(a, "&#39;"@, b, "&amp;"@);
    lemma_other_escape(a, "&#39;"@, b, "&lt;"@);
    lemma_other_escape(a, "&#39;"@, b, "&gt;"@);
    lemma_other_escape(a, "&#39;"@, b, "&quot;"@);
    lemma_no_escape(a + "<"@ + b);
    lemma_no_escape(a + ">"@ + b);
    lemma_no_escape(a + "\""@ + b);
    lemma_no_escape(a + "'"@ + b);
}

proof fn lemma_no_escape(t: Seq<char>)
    requires
        !t.contains('&'),
    ensures
        pieces::replace(t, "&amp;"@, "&"@) == t,
        pieces::replace(t, "&lt;"@, "<"@) == t,
        pieces::replace(t, "&gt;"@, ">"@) == t,
        pieces::replace(t, "&quot;"@, "\""@) == t,
        pieces::replace(t, "&#39;"@, "'"@) == t,
{
    reveal_strlit("&amp;");
    reveal_strlit("&lt;");
    reveal_strlit("&gt;");
    reveal_strlit("&quot;");
    reveal_strlit("&#39;");
    assert forall|e: Seq<char>| e.len() > 0 && e[0] == '&' implies !#[trigger] text::contains(
        t,
        e,
    ) by {
        if text::contains(t, e) {
            let i = choose|i: int| text::occurs_at(t, e, i);
            assert(t.subrange(i, i + e.len())[0] == '&');
            assert(t[i] == '&');
        }
    }
    law_nothing_to_replace(t, "&amp;"@, "&"@);
    law_nothing_to_replace(t, "&lt;"@, "<"@);
    law_nothing_to_replace(t, "&gt;"@, ">"@);
    law_nothing_to_replace(t, "&quot;"@, "\""@);
    law_nothing_to_replace(t, "&#39;"@, "'"@);
}

/// The one ampersand of a text stands where its escape stands.
proof fn lemma_ampersand(a: Seq<char>, e: Seq<char>, b: Seq<char>, i: int)
    requires
        !a.contains('&'),
        !b.contains('&'),
        e.len() > 0,
        forall|k: int| 0 < k < e.len() ==> e[k] != '&',
        0 <= i < (a + e + b).len(),
        (a + e + b)[i] == '&',
    ensures
        i == a.len(),
{
    let n = a.len() as int;
    let m = (a + e).len() as int;
    if i < n {
        assert(a[i] == '&');
    } else if i >= m {
        assert(b[i - m] == '&');
    } else {
        assert(e[i - n] == '&');
    }
}

proof fn lemma_escape(a: Seq<char>, e: Seq<char>, to: Seq<char>, b: Seq<char>)
    requires
        !a.contains('&'),
        !b.contains('&'),
        e.len() > 0,
        e[0] == '&',
        forall|k: int| 0 < k < e.len() ==> e[k] != '&',
    ensures
        pieces::replace(a + e + b, e, to) == a + to + b,
{
    let t = a + e + b;
    let n = a.len() as int;
    assert(t.subrange(n, n + e.len()) =~= e);
    assert(text::occurs_at(t, e, n));
    assert forall|i: int| 0 <= i < n implies !text::occurs_at(t, e, i) by {
        if text::occurs_at(t, e, i) {
            assert(t.subrange(i, i + e.len())[0] == '&');
            lemma_ampersand(a, e, b, i);
        }
    }
    law_first_is_replaced(t, e, to, n);
    assert(t.skip(n + e.len()) =~= b);
    assert(t.take(n) =~= a);
    assert(!text::contains(b, e)) by {
        if text::contains(b, e) {
            let i = choose|i: int| text::occurs_at(b, e, i);
            assert(b.subrange(i, i + e.len())[0] == '&');
            assert(b[i] == '&');
        }
    }
    law_nothing_to_replace(b, e, to);
}

proof fn lemma_other_escape(a: Seq<char>, e: Seq<char>, b: Seq<char>, other: Seq<char>)
    requires
        !a.contains('&'),
        !b.contains('&'),
        e.len() > 1,
        forall|k: int| 0 < k < e.len() ==> e[k] != '&',
        other.len() > 1,
        other[0] == '&',
        other[1] != e[1],
    ensures
        forall|to: Seq<char>| #[trigger] pieces::replace(a + e + b, other, to) == a + e + b,
{
    let t = a + e + b;
    assert(!text::contains(t, other)) by {
        if text::contains(t, other) {
            let i = choose|i: int| text::occurs_at(t, other, i);
            assert(t.subrange(i, i + other.len())[0] == '&');
            assert(t.subrange(i, i + other.len())[1] == other[1]);
            lemma_ampersand(a, e, b, i);
            assert(t[a.len() as int + 1] == e[1]);
        }
    }
    assert forall|to: Seq<char>| #[trigger] pieces::replace(t, other, to) == t by {
        law_nothing_to_replace(t, other, to);
    }
}

// What is named

/// The host of an address is its domain, without `www.` in front; an address without a path is
/// taken in the same way.
pub proof fn law_hosts_are_domains(host: Seq<char>, path: Seq<char>)
    requires
        !host.contains('/'),
        !"www."@.is_prefix_of(host),
    ensures
        excerpt::domain("https://"@ + host + seq!['/'] + path) == host,
        excerpt::domain("https://www."@ + host + seq!['/'] + path) == host,
        excerpt::domain("http://"@ + host + seq!['/'] + path) == host,
        excerpt::domain("http://www."@ + host + seq!['/'] + path) == host,
        excerpt::domain("https://"@ + host) == host,
        excerpt::domain("http://"@ + host) == host,
{
    reveal_strlit("https://");
    reveal_strlit("https://www.");
    reveal_strlit("http://");
    reveal_strlit("http://www.");
    reveal_strlit("www.");
    let w = "www."@ + host;
    lemma_before_in_front(host, '/', path);
    assert(!w.contains('/')) by {
        if w.contains('/') {
            let i = choose|i: int| 0 <= i < w.len() && w[i] == '/';
            if i >= 4 {
                assert(host[i - 4] == '/');
            }
        }
    }
    lemma_before_in_front(w, '/', path);
    let bare = host + seq!['/'] + path;
    let with_www = w + seq!['/'] + path;
    assert(bare.take(host.len() as int) =~= host);
    assert(with_www.take(w.len() as int) =~= w);
    assert(host.take(host.len() as int) =~= host);
    assert("www."@.is_prefix_of(w)) by {
        assert(w.subrange(0, 4) =~= "www."@);
    }
    assert(w.skip(4) =~= host);
    reveal_with_fuel(excerpt::without_www, 2);
    assert(excerpt::without_www(w) == host);
    lemma_stripped("https://"@, bare);
    lemma_stripped("https://"@, with_www);
    lemma_stripped("https://"@, host);
    lemma_stripped("http://"@, bare);
    lemma_stripped("http://"@, with_www);
    lemma_stripped("http://"@, host);
    lemma_not_https(bare);
    lemma_not_https(with_www);
    lemma_not_https(host);
    assert("https://"@ + host + seq!['/'] + path =~= "https://"@ + bare);
    assert("http://"@ + host + seq!['/'] + path =~= "http://"@ + bare);
    assert("https://www."@ + host + seq!['/'] + path =~= "https://"@ + with_www);
    assert("http://www."@ + host + seq!['/'] + path =~= "http://"@ + with_www);
}

proof fn lemma_stripped(a: Seq<char>, b: Seq<char>)
    ensures
        text::strip_prefix(a + b, a) == Some(b),
{
    assert((a + b).subrange(0, a.len() as int) =~= a);
    assert((a + b).skip(a.len() as int) =~= b);
}

proof fn lemma_not_https(b: Seq<char>)
    ensures
        text::strip_prefix("http://"@ + b, "https://"@) is None,
{
    reveal_strlit("https://");
    reveal_strlit("http://");
    let s = "http://"@ + b;
    assert(s[4] == ':');
    if "https://"@.is_prefix_of(s) {
        assert(s.subrange(0, 8)[4] == "https://"@[4]);
    }
}

/// The year of a text is the first number of four digits from 1900 to 2100 that stands in it; other
/// numbers are passed over, and a text without digits names none.
pub proof fn law_years_are_found(a: Seq<char>, run: Seq<char>, b: Seq<char>)
    requires
        forall|i: int| 0 <= i < a.len() ==> !chars::is_digit(#[trigger] a[i]),
        run.len() > 0,
        numbers::all_digits(run),
        b.len() > 0 ==> !chars::is_digit(b[0]),
    ensures
        run.len() == 4 && 1900 <= numbers::value(run) <= 2100 ==> excerpt::year_named(a + (run + b))
            == Some(numbers::value(run) as int),
        !(run.len() == 4 && 1900 <= numbers::value(run) <= 2100) ==> excerpt::year_named(
            a + (run + b),
        ) == excerpt::year_named(b),
        excerpt::year_named(a) is None,
{
    lemma_no_digits(a, run + b);
    lemma_no_digits(a, Seq::empty());
    assert(a + Seq::<char>::empty() =~= a);
    let s = run + b;
    assert(s[0] == run[0]);
    assert(chars::is_digit(run[0]));
    let k = numbers::digits_before(s);
    numbers::lemma_digits_before(s);
    assert(k == run.len()) by {
        if k < run.len() {
            assert(s[k] == run[k]);
            assert(chars::is_digit(run[k]));
        } else if k > run.len() {
            assert(s[run.len() as int] == b[0]);
        }
    }
    assert(s.take(k) =~= run);
    assert(s.skip(k) =~= b);
    let runs = excerpt::digit_runs(s);
    assert(runs == seq![run] + excerpt::digit_runs(b));
    assert(runs.skip(1) =~= excerpt::digit_runs(b));
}

proof fn lemma_no_digits(a: Seq<char>, b: Seq<char>)
    requires
        forall|i: int| 0 <= i < a.len() ==> !chars::is_digit(#[trigger] a[i]),
    ensures
        excerpt::digit_runs(a + b) == excerpt::digit_runs(b),
    decreases a.len(),
{
    if a.len() == 0 {
        assert(a + b =~= b);
    } else {
        assert((a + b)[0] == a[0]);
        assert((a + b).skip(1) =~= a.skip(1) + b);
        lemma_no_digits(a.skip(1), b);
    }
}

} // verus!
