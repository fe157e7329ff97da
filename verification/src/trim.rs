//! Removing what surrounds a text.

use crate::chars;
use crate::text;
use vstd::prelude::*;

verus! {

/// The text without leading white space.
pub open spec fn trim_start(s: Seq<char>) -> Seq<char>
    decreases s.len(),
{
    if s.len() > 0 && chars::is_white(s[0]) {
        trim_start(s.skip(1))
    } else {
        s
    }
}

/// The text without trailing white space.
pub open spec fn trim_end(s: Seq<char>) -> Seq<char>
    decreases s.len(),
{
    if s.len() > 0 && chars::is_white(s.last()) {
        trim_end(s.drop_last())
    } else {
        s
    }
}

/// The text without white space at either end.
pub open spec fn trim(s: Seq<char>) -> Seq<char> {
    trim_end(trim_start(s))
}

/// A text that neither begins nor ends with white space.
pub open spec fn is_trimmed(s: Seq<char>) -> bool {
    s.len() > 0 ==> !chars::is_white(s[0]) && !chars::is_white(s.last())
}

/// `trim_start` keeps a suffix that does not begin with white space, and drops white space only.
pub proof fn lemma_trim_start(s: Seq<char>)
    ensures
        trim_start(s).len() <= s.len(),
        trim_start(s) == s.skip(s.len() - trim_start(s).len()),
        trim_start(s).len() > 0 ==> !chars::is_white(trim_start(s)[0]),
        forall|i: int| 0 <= i < s.len() - trim_start(s).len() ==> chars::is_white(s[i]),
    decreases s.len(),
{
    if s.len() > 0 && chars::is_white(s[0]) {
        let t = s.skip(1);
        lemma_trim_start(t);
        let k = t.len() - trim_start(t).len();
        assert(t.skip(k) == s.skip(k + 1));
        assert forall|i: int| 0 <= i < s.len() - trim_start(s).len() implies chars::is_white(
            s[i],
        ) by {
            if i > 0 {
                assert(t[i - 1] == s[i]);
            }
        }
    } else {
        assert(s.skip(0) == s);
    }
}

/// `trim_end` keeps a prefix that does not end with white space, and drops white space only.
pub proof fn lemma_trim_end(s: Seq<char>)
    ensures
        trim_end(s).len() <= s.len(),
        trim_end(s) == s.take(trim_end(s).len() as int),
        trim_end(s).len() > 0 ==> !chars::is_white(trim_end(s).last()),
        forall|i: int| trim_end(s).len() <= i < s.len() ==> chars::is_white(s[i]),
    decreases s.len(),
{
    if s.len() > 0 && chars::is_white(s.last()) {
        let t = s.drop_last();
        lemma_trim_end(t);
        assert(t.take(trim_end(t).len() as int) == s.take(trim_end(t).len() as int));
        assert forall|i: int| trim_end(s).len() <= i < s.len() implies chars::is_white(s[i]) by {
            if i < s.len() - 1 {
                assert(t[i] == s[i]);
            }
        }
    } else {
        assert(s.take(s.len() as int) == s);
    }
}

/// Trimming leaves nothing to trim, and is no longer than the text.
pub proof fn lemma_trim(s: Seq<char>)
    ensures
        is_trimmed(trim(s)),
        trim(s).len() <= s.len(),
        exists|i: int|
            0 <= i && i + trim(s).len() <= s.len() && trim(s) == #[trigger] s.subrange(
                i,
                i + trim(s).len(),
            ),
{
    lemma_trim_start(s);
    let t = trim_start(s);
    lemma_trim_end(t);
    let i = s.len() - t.len();
    assert(trim(s) =~= s.subrange(i, i + trim(s).len()));
}

/// A trimmed text is its own trimming.
pub proof fn lemma_trimmed_is_fixed(s: Seq<char>)
    requires
        is_trimmed(s),
    ensures
        trim_start(s) == s,
        trim_end(s) == s,
        trim(s) == s,
{
}

/// White space at the end of a text does not change its trimming.
proof fn lemma_trim_push_white(s: Seq<char>, w: char)
    requires
        chars::is_white(w),
    ensures
        trim(s.push(w)) == trim(s),
    decreases s.len(),
{
    let t = s.push(w);
    if s.len() == 0 {
        assert(t.skip(1) =~= s);
    } else if chars::is_white(s[0]) {
        assert(t.skip(1) =~= s.skip(1).push(w));
        lemma_trim_push_white(s.skip(1), w);
    } else {
        assert(t.drop_last() =~= s);
    }
}

/// What is trimmed at its end trims to the same.
pub proof fn lemma_trim_after_trim_end(s: Seq<char>)
    ensures
        trim(trim_end(s)) == trim(s),
    decreases s.len(),
{
    if s.len() > 0 && chars::is_white(s.last()) {
        lemma_trim_after_trim_end(s.drop_last());
        assert(s.drop_last().push(s.last()) =~= s);
        lemma_trim_push_white(s.drop_last(), s.last());
    }
}

/// A beginning that is not white stays, before text that is not all white.
pub proof fn lemma_trim_beginning(a: Seq<char>, b: Seq<char>)
    requires
        a.len() > 0,
        !chars::is_white(a[0]),
        trim(b).len() > 0,
    ensures
        trim(a + b) == a + trim_end(b),
{
    assert(trim_start(a + b) == a + b);
    lemma_trim_end(b);
    if trim_end(b).len() == 0 {
        lemma_trim_start(b);
        if trim_start(b).len() > 0 {
            let k = b.len() - trim_start(b).len();
            assert(b.skip(k)[0] == b[k]);
        }
        assert(trim(b) =~= seq![]);
    }
    lemma_trim_end_of_end(a, b);
}

proof fn lemma_trim_end_of_end(a: Seq<char>, b: Seq<char>)
    requires
        trim_end(b).len() > 0,
    ensures
        trim_end(a + b) == a + trim_end(b),
    decreases b.len(),
{
    assert((a + b).last() == b.last());
    if chars::is_white(b.last()) {
        assert((a + b).drop_last() =~= a + b.drop_last());
        lemma_trim_end_of_end(a, b.drop_last());
    }
}

/// The text without leading white space.
pub fn trimmed_start(s: &str) -> (r: String)
    ensures
        r@ == trim_start(s@),
{
    let x = text::chars_of(s);
    let from = start_of(&x);
    let r = text::text_between(&x, from, x.len());
    assert(r@ == s@.skip(from as int));
    r
}

/// The text without trailing white space.
pub fn trimmed_end(s: &str) -> (r: String)
    ensures
        r@ == trim_end(s@),
{
    let x = text::chars_of(s);
    let to = end_of(&x, 0);
    assert(x@.skip(0) == x@);
    let r = text::text_between(&x, 0, to);
    r
}

/// The text without white space at either end.
pub fn trimmed(s: &str) -> (r: String)
    ensures
        r@ == trim(s@),
{
    let x = text::chars_of(s);
    let from = start_of(&x);
    let to = end_of(&x, from);
    text::text_between(&x, from, to)
}

/// The number of leading white characters.
fn start_of(x: &Vec<char>) -> (i: usize)
    ensures
        i <= x@.len(),
        x@.skip(i as int) == trim_start(x@),
{
    let mut i: usize = 0;
    assert(x@.skip(0) == x@);
    while i < x.len() && chars::white(x[i])
        invariant
            i <= x@.len(),
            trim_start(x@) == trim_start(x@.skip(i as int)),
        decreases x@.len() - i,
    {
        assert(x@.skip(i as int).skip(1) == x@.skip(i + 1));
        i += 1;
    }
    i
}

/// The end of what remains of the characters from `from` on without trailing white space.
fn end_of(x: &Vec<char>, from: usize) -> (j: usize)
    requires
        from <= x@.len(),
    ensures
        from <= j <= x@.len(),
        x@.subrange(from as int, j as int) == trim_end(x@.skip(from as int)),
{
    let mut j: usize = x.len();
    assert(x@.subrange(from as int, j as int) == x@.skip(from as int));
    while j > from && chars::white(x[j - 1])
        invariant
            from <= j <= x@.len(),
            trim_end(x@.skip(from as int)) == trim_end(x@.subrange(from as int, j as int)),
        decreases j,
    {
        assert(x@.subrange(from as int, j as int).drop_last() == x@.subrange(
            from as int,
            j - 1,
        ));
        j -= 1;
    }
    j
}

} // verus!
