//! Taking texts apart and putting them together.

use crate::chars;
use crate::text;
use crate::trim;
use vstd::prelude::*;

verus! {

/// A line without a carriage return at its end.
pub open spec fn without_return(s: Seq<char>) -> Seq<char> {
    if s.len() > 0 && s.last() == '\r' {
        s.drop_last()
    } else {
        s
    }
}

/// The lines of a text. A line ends at a line feed, with or without a carriage return before it;
/// what follows the last line feed is a line unless it is empty.
pub open spec fn lines(s: Seq<char>) -> Seq<Seq<char>>
    decreases s.len(),
{
    let k = text::before(s, '\n');
    if s.len() == 0 {
        seq![]
    } else if k >= s.len() {
        seq![s]
    } else {
        proof {
            text::lemma_before(s, '\n');
        }
        seq![without_return(s.take(k))] + lines(s.skip(k + 1))
    }
}

/// The pieces between the occurrences of `c`.
pub open spec fn split(s: Seq<char>, c: char) -> Seq<Seq<char>>
    decreases s.len(),
{
    let k = text::before(s, c);
    if k >= s.len() {
        seq![s]
    } else {
        proof {
            text::lemma_before(s, c);
        }
        seq![s.take(k)] + split(s.skip(k + 1), c)
    }
}

/// The number of leading characters that are not white.
pub open spec fn word_length(s: Seq<char>) -> int
    decreases s.len(),
{
    if s.len() == 0 || chars::is_white(s[0]) {
        0
    } else {
        1 + word_length(s.skip(1))
    }
}

/// The maximal runs of characters that are not white.
pub open spec fn words(s: Seq<char>) -> Seq<Seq<char>>
    decreases s.len(),
{
    let t = trim::trim_start(s);
    let k = word_length(t);
    if t.len() == 0 {
        seq![]
    } else {
        proof {
            trim::lemma_trim_start(s);
            lemma_word_length(t);
        }
        seq![t.take(k)] + words(t.skip(k))
    }
}

/// The text with every occurrence of `from`, taken from left to right, replaced by `to`.
pub open spec fn replace(s: Seq<char>, from: Seq<char>, to: Seq<char>) -> Seq<char>
    decreases s.len(),
{
    if s.len() == 0 || from.len() == 0 {
        s
    } else if from.is_prefix_of(s) {
        to + replace(s.skip(from.len() as int), from, to)
    } else {
        seq![s[0]] + replace(s.skip(1), from, to)
    }
}

/// The texts one after another, with `sep` between them.
pub open spec fn join(list: Seq<Seq<char>>, sep: Seq<char>) -> Seq<char>
    decreases list.len(),
{
    if list.len() == 0 {
        seq![]
    } else if list.len() == 1 {
        list[0]
    } else {
        join(list.drop_last(), sep) + sep + list.last()
    }
}

pub proof fn lemma_word_length(s: Seq<char>)
    ensures
        0 <= word_length(s) <= s.len(),
        s.len() > 0 && !chars::is_white(s[0]) ==> word_length(s) > 0,
        forall|i: int| 0 <= i < word_length(s) ==> !chars::is_white(s[i]),
        word_length(s) < s.len() ==> chars::is_white(s[word_length(s)]),
    decreases s.len(),
{
    if s.len() > 0 && !chars::is_white(s[0]) {
        lemma_word_length(s.skip(1));
        assert forall|i: int| 0 <= i < word_length(s) implies !chars::is_white(s[i]) by {
            if i > 0 {
                assert(s.skip(1)[i - 1] == s[i]);
            }
        }
    }
}

/// What passes a test among one more element.
pub proof fn lemma_filter_step<A>(s: Seq<A>, p: spec_fn(A) -> bool, i: int)
    requires
        0 <= i < s.len(),
    ensures
        s.take(i + 1).filter(p) == if p(s[i]) {
            s.take(i).filter(p).push(s[i])
        } else {
            s.take(i).filter(p)
        },
{
    reveal(Seq::filter);
    assert(s.take(i + 1).drop_last() == s.take(i));
    assert(s.take(i + 1).last() == s[i]);
}

/// Nothing passes a test among no elements; all of a list is the list.
pub proof fn lemma_filter_ends<A>(s: Seq<A>, p: spec_fn(A) -> bool)
    ensures
        s.take(0).filter(p) == Seq::<A>::empty(),
        s.take(s.len() as int) == s,
{
    reveal(Seq::filter);
    assert(s.take(0).len() == 0);
    assert(s.take(0).filter(p) =~= Seq::<A>::empty());
    assert(s.take(s.len() as int) =~= s);
}

/// The elements of `s` at the given places, which ascend, make up `t`.
pub open spec fn picks<A>(s: Seq<A>, places: Seq<int>, t: Seq<A>) -> bool {
    &&& places.len() == t.len()
    &&& forall|i: int|
        0 <= i < places.len() ==> 0 <= #[trigger] places[i] < s.len() && t[i] == s[places[i]]
    &&& forall|i: int, j: int|
        0 <= i < j < places.len() ==> #[trigger] places[i] < #[trigger] places[j]
}

/// Whether `t` is `s` with some elements left out.
pub open spec fn is_within<A>(t: Seq<A>, s: Seq<A>) -> bool {
    exists|places: Seq<int>| picks(s, places, t)
}

/// A stretch of a list is the list with some elements left out.
pub proof fn lemma_stretch_is_within<A>(s: Seq<A>, i: int, j: int)
    requires
        0 <= i <= j <= s.len(),
    ensures
        is_within(s.subrange(i, j), s),
{
    assert(picks(s, Seq::new((j - i) as nat, |k: int| i + k), s.subrange(i, j)));
}

/// What passes a test is the list with some elements left out.
pub proof fn lemma_filter_is_within<A>(s: Seq<A>, p: spec_fn(A) -> bool)
    ensures
        is_within(s.filter(p), s),
    decreases s.len(),
{
    reveal(Seq::filter);
    if s.len() == 0 {
        assert(picks(s, Seq::<int>::empty(), s.filter(p)));
    } else {
        let front = s.drop_last();
        lemma_filter_is_within(front, p);
        let places = choose|places: Seq<int>| picks(front, places, front.filter(p));
        if p(s.last()) {
            assert(picks(s, places.push(s.len() - 1), s.filter(p)));
        } else {
            assert(picks(s, places, s.filter(p)));
        }
    }
}

/// Leaving out elements twice is leaving out elements.
pub proof fn lemma_within_within<A>(a: Seq<A>, b: Seq<A>, c: Seq<A>)
    requires
        is_within(a, b),
        is_within(b, c),
    ensures
        is_within(a, c),
{
    let inner = choose|places: Seq<int>| picks(b, places, a);
    let outer = choose|places: Seq<int>| picks(c, places, b);
    let places = Seq::new(inner.len(), |i: int| outer[inner[i]]);
    assert(picks(c, places, a));
}

/// Adding one more text to a list adds it to the joined text.
pub proof fn lemma_join_push(list: Seq<Seq<char>>, sep: Seq<char>, t: Seq<char>)
    ensures
        join(list.push(t), sep) == if list.len() == 0 {
            t
        } else {
            join(list, sep) + sep + t
        },
{
    assert(list.push(t).drop_last() == list);
}

/// The lines of a text.
pub fn lines_of(s: &str) -> (r: Vec<String>)
    ensures
        text::views(r@) == lines(s@),
{
    let x = text::chars_of(s);
    let mut r: Vec<String> = Vec::new();
    let mut from: usize = 0;
    assert(x@.skip(0) == x@);
    assert(text::views(r@) + lines(x@) == lines(x@));
    while from < x.len()
        invariant
            from <= x@.len(),
            text::views(r@) + lines(x@.skip(from as int)) == lines(x@),
        decreases x@.len() - from,
    {
        let ghost rest = x@.skip(from as int);
        let ghost done = text::views(r@);
        let k = text::count_before(&x, '\n', from);
        if k == x.len() - from {
            let line = text::text_between(&x, from, x.len());
            assert(line@ == rest);
            r.push(line);
            assert(text::views(r@) == done.push(rest));
            assert(done + seq![rest] == done.push(rest));
            assert(lines(x@.skip(x@.len() as int)) =~= seq![]);
            from = x.len();
            assert(text::views(r@) + lines(x@.skip(from as int)) == lines(x@));
        } else {
            let mut to: usize = from + k;
            if k > 0 && x[from + k - 1] == '\r' {
                to = from + k - 1;
            }
            let line = text::text_between(&x, from, to);
            assert(rest.take(k as int) == x@.subrange(from as int, from + k));
            assert(line@ == without_return(rest.take(k as int)));
            r.push(line);
            assert(text::views(r@) == done.push(line@));
            assert(rest.skip(k + 1) == x@.skip(from + k + 1));
            from = from + k + 1;
            assert(done + (seq![line@] + lines(x@.skip(from as int))) == done.push(line@) + lines(
                x@.skip(from as int),
            ));
        }
    }
    assert(text::views(r@) + lines(x@.skip(from as int)) == text::views(r@));
    r
}

/// The pieces between the occurrences of `c`.
pub fn split_at(s: &str, c: char) -> (r: Vec<String>)
    ensures
        text::views(r@) == split(s@, c),
{
    let x = text::chars_of(s);
    let mut r: Vec<String> = Vec::new();
    let mut from: usize = 0;
    assert(x@.skip(0) == x@);
    assert(text::views(r@) + split(x@, c) == split(x@, c));
    loop
        invariant
            from <= x@.len(),
            text::views(r@) + split(x@.skip(from as int), c) == split(x@, c),
            x@ == s@,
        decreases x@.len() - from,
    {
        let ghost rest = x@.skip(from as int);
        let ghost done = text::views(r@);
        let k = text::count_before(&x, c, from);
        assert(from + k <= x.len());
        let piece = text::text_between(&x, from, from + k);
        assert(piece@ == rest.take(k as int));
        r.push(piece);
        assert(text::views(r@) == done.push(piece@));
        if k == x.len() - from {
            assert(rest.take(k as int) == rest);
            assert(done + seq![rest] == done.push(rest));
            return r;
        }
        assert(rest.skip(k + 1) == x@.skip(from + k + 1));
        from = from + k + 1;
        assert(done + (seq![piece@] + split(x@.skip(from as int), c)) == done.push(piece@) + split(
            x@.skip(from as int),
            c,
        ));
    }
}

/// The maximal runs of characters that are not white.
pub fn words_of(s: &str) -> (r: Vec<String>)
    ensures
        text::views(r@) == words(s@),
{
    let x = text::chars_of(s);
    let mut r: Vec<String> = Vec::new();
    let mut i: usize = 0;
    assert(x@.skip(0) == x@);
    assert(text::views(r@) + words(x@) == words(x@));
    while i < x.len()
        invariant
            i <= x@.len(),
            text::views(r@) + words(x@.skip(i as int)) == words(x@),
        decreases x@.len() - i,
    {
        let ghost rest = x@.skip(i as int);
        let ghost done = text::views(r@);
        if chars::white(x[i]) {
            assert(rest.skip(1) == x@.skip(i + 1));
            assert(words(rest) == words(x@.skip(i + 1)));
            i += 1;
        } else {
            let start = i;
            assert(rest.skip(0) == rest);
            while i < x.len() && !chars::white(x[i])
                invariant
                    start <= i <= x@.len(),
                    start < x@.len(),
                    rest == x@.skip(start as int),
                    word_length(rest) == (i - start) + word_length(x@.skip(i as int)),
                decreases x@.len() - i,
            {
                assert(x@.skip(i as int).skip(1) == x@.skip(i + 1));
                i += 1;
            }
            proof {
                lemma_word_length(rest);
            }
            assert(i > start);
            let word = text::text_between(&x, start, i);
            let ghost k = i - start;
            assert(word@ == rest.take(k));
            assert(rest.skip(k) == x@.skip(i as int));
            r.push(word);
            assert(text::views(r@) == done.push(word@));
            assert(done + (seq![word@] + words(x@.skip(i as int))) == done.push(word@) + words(
                x@.skip(i as int),
            ));
        }
    }
    assert(text::views(r@) + words(x@.skip(i as int)) == text::views(r@));
    r
}

/// The text with every occurrence of `from`, taken from left to right, replaced by `to`.
pub fn replaced(s: &str, from: &str, to: &str) -> (r: String)
    requires
        from@.len() > 0,
    ensures
        r@ == replace(s@, from@, to@),
{
    let x = text::chars_of(s);
    let p = text::chars_of(from);
    let mut r = String::new();
    let mut i: usize = 0;
    assert(x@.skip(0) == x@);
    assert(r@ + replace(x@, p@, to@) == replace(x@, p@, to@));
    while i < x.len()
        invariant
            i <= x@.len(),
            p@.len() > 0,
            r@ + replace(x@.skip(i as int), p@, to@) == replace(x@, p@, to@),
        decreases x@.len() - i,
    {
        let ghost rest = x@.skip(i as int);
        let ghost done = r@;
        if text::stands_at(&x, &p, i) {
            assert(rest.subrange(0, p@.len() as int) == x@.subrange(i as int, i + p@.len()));
            assert(p@.is_prefix_of(rest));
            r.append(to);
            assert(rest.skip(p@.len() as int) == x@.skip(i + p@.len()));
            i = i + p.len();
            assert(done + (to@ + replace(x@.skip(i as int), p@, to@)) == (done + to@) + replace(
                x@.skip(i as int),
                p@,
                to@,
            ));
        } else {
            assert(p@.is_prefix_of(rest) ==> text::occurs_at(x@, p@, i as int)) by {
                if p@.is_prefix_of(rest) {
                    assert(x@.subrange(i as int, i + p@.len()) =~= rest.subrange(
                        0,
                        p@.len() as int,
                    ));
                }
            }
            r.push(x[i]);
            assert(rest.skip(1) == x@.skip(i + 1));
            assert(done + (seq![x@[i as int]] + replace(x@.skip(i + 1), p@, to@)) == done.push(
                x@[i as int],
            ) + replace(x@.skip(i + 1), p@, to@));
            i += 1;
        }
    }
    assert(r@ + replace(x@.skip(i as int), p@, to@) == r@);
    r
}

/// The texts one after another, with `sep` between them.
pub fn joined(list: &Vec<String>, sep: &str) -> (r: String)
    ensures
        r@ == join(text::views(list@), sep@),
{
    let mut r = String::new();
    let mut i: usize = 0;
    let ghost all = text::views(list@);
    while i < list.len()
        invariant
            i <= list@.len(),
            all == text::views(list@),
            r@ == join(all.take(i as int), sep@),
        decreases list@.len() - i,
    {
        proof {
            lemma_join_push(all.take(i as int), sep@, all[i as int]);
            assert(all.take(i + 1) == all.take(i as int).push(all[i as int]));
        }
        if i > 0 {
            r.append(sep);
        }
        let ghost mid = r@;
        r.append(list[i].as_str());
        assert(mid.len() == 0 ==> r@ == list@[i as int]@);
        i += 1;
    }
    assert(all.take(i as int) == all);
    r
}

} // verus!
