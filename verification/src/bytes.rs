//! Lengths and positions counted in UTF-8 bytes.

use crate::text;
use vstd::prelude::*;
use vstd::utf8;

verus! {

/// The number of bytes that encode a character.
pub open spec fn width(c: char) -> nat {
    let n = c as u32;
    if n <= 0x7F {
        1
    } else if n <= 0x7FF {
        2
    } else if n <= 0xFFFF {
        3
    } else {
        4
    }
}

/// The number of bytes that encode a text.
pub open spec fn byte_len(s: Seq<char>) -> nat
    decreases s.len(),
{
    if s.len() == 0 {
        0
    } else {
        width(s[0]) + byte_len(s.skip(1))
    }
}

/// The length of the longest beginning of a text that `room` bytes can hold.
pub open spec fn fitting(s: Seq<char>, room: int) -> int
    decreases s.len(),
{
    if s.len() == 0 || width(s[0]) > room {
        0
    } else {
        1 + fitting(s.skip(1), room - width(s[0]))
    }
}

/// The number of characters before byte offset `n`, where a character ends there.
pub open spec fn chars_before(s: Seq<char>, n: int) -> Option<int>
    decreases s.len(),
{
    if n == 0 {
        Some(0int)
    } else if s.len() == 0 || width(s[0]) > n {
        None
    } else {
        match chars_before(s.skip(1), n - width(s[0])) {
            Some(k) => Some(k + 1),
            None => None,
        }
    }
}

/// What stands from byte offset `n` on.
pub open spec fn from_byte(s: Seq<char>, n: int) -> Option<Seq<char>> {
    match chars_before(s, n) {
        Some(k) => Some(s.skip(k)),
        None => None,
    }
}

pub proof fn lemma_byte_len_is_encoded_length(s: Seq<char>)
    ensures
        byte_len(s) == utf8::encode_utf8(s).len(),
    decreases s.len(),
{
    if s.len() > 0 {
        lemma_byte_len_is_encoded_length(s.skip(1));
        assert(s.skip(1) == s.drop_first());
        let n = s[0] as u32;
        utf8::char_is_scalar(s[0]);
        assert(utf8::encode_scalar(n).len() == width(s[0]));
    }
}

pub proof fn lemma_byte_len_concat(a: Seq<char>, b: Seq<char>)
    ensures
        byte_len(a + b) == byte_len(a) + byte_len(b),
    decreases a.len(),
{
    if a.len() == 0 {
        assert(a + b == b);
    } else {
        lemma_byte_len_concat(a.skip(1), b);
        assert((a + b).skip(1) == a.skip(1) + b);
    }
}

/// The longest beginning that fits does fit.
pub proof fn lemma_fitting(s: Seq<char>, room: int)
    ensures
        0 <= fitting(s, room) <= s.len(),
        room >= 0 ==> byte_len(s.take(fitting(s, room))) <= room,
        fitting(s, room) < s.len() ==> byte_len(s.take(fitting(s, room) + 1)) > room,
    decreases s.len(),
{
    if s.len() == 0 {
        assert(s.take(0) == s);
    } else if width(s[0]) > room {
        assert(s.take(0).len() == 0);
        let one = s.take(1);
        assert(one[0] == s[0]);
        assert(byte_len(one) >= width(s[0]));
    } else {
        let t = s.skip(1);
        lemma_fitting(t, room - width(s[0]));
        let k = fitting(t, room - width(s[0]));
        assert(s.take(k + 1).skip(1) == t.take(k));
        assert(s.take(k + 1)[0] == s[0]);
        if k < t.len() {
            assert(s.take(k + 2).skip(1) == t.take(k + 1));
            assert(s.take(k + 2)[0] == s[0]);
        }
    }
}

/// A beginning of a text has no more bytes than a longer beginning.
pub proof fn lemma_byte_len_of_beginning(s: Seq<char>, i: int, j: int)
    requires
        0 <= i <= j <= s.len(),
    ensures
        byte_len(s.take(i)) <= byte_len(s.take(j)),
{
    assert(s.take(j) == s.take(i) + s.subrange(i, j));
    lemma_byte_len_concat(s.take(i), s.subrange(i, j));
}

/// A character ends at byte offset `n` where `chars_before` says so.
pub proof fn lemma_chars_before(s: Seq<char>, n: int)
    ensures
        chars_before(s, n) matches Some(k) ==> 0 <= k <= s.len() && byte_len(s.take(k)) == n,
    decreases s.len(),
{
    if n == 0 {
        assert(s.take(0).len() == 0);
    } else if s.len() > 0 && width(s[0]) <= n {
        lemma_chars_before(s.skip(1), n - width(s[0]));
        if chars_before(s.skip(1), n - width(s[0])) is Some {
            let k = chars_before(s.skip(1), n - width(s[0]))->0;
            assert(s.take(k + 1).skip(1) == s.skip(1).take(k));
            assert(s.take(k + 1)[0] == s[0]);
        }
    }
}

/// After ASCII characters a byte offset is their number.
pub proof fn lemma_chars_before_ascii(a: Seq<char>, b: Seq<char>)
    requires
        forall|i: int| 0 <= i < a.len() ==> (#[trigger] a[i] as u32) < 128,
    ensures
        from_byte(a + b, a.len() as int) == Some(b),
    decreases a.len(),
{
    if a.len() == 0 {
        assert((a + b).skip(0) =~= b);
    } else {
        let t = a.skip(1);
        assert forall|i: int| 0 <= i < t.len() implies (#[trigger] t[i] as u32) < 128 by {
            assert(t[i] == a[i + 1]);
        }
        lemma_chars_before_ascii(t, b);
        assert((a + b).skip(1) =~= t + b);
        lemma_chars_before(t + b, t.len() as int);
        let k = chars_before(t + b, t.len() as int)->0;
        assert((a + b).skip(k + 1) =~= (t + b).skip(k));
    }
}

/// The number of bytes that encode a character.
pub fn char_width(c: char) -> (r: usize)
    ensures
        r == width(c),
        1 <= r <= 4,
{
    let n = c as u32;
    if n <= 0x7F {
        1
    } else if n <= 0x7FF {
        2
    } else if n <= 0xFFFF {
        3
    } else {
        4
    }
}

/// The number of bytes that encode a text.
pub fn byte_length(s: &str) -> (r: usize)
    ensures
        r == byte_len(s@),
{
    proof {
        lemma_byte_len_is_encoded_length(s@);
    }
    s.as_bytes().len()
}

/// The length of the longest beginning of the characters from `from` on that `room` bytes hold.
pub fn how_many_fit(x: &Vec<char>, from: usize, room: usize) -> (r: usize)
    requires
        from <= x@.len(),
    ensures
        r == fitting(x@.skip(from as int), room as int),
        from + r <= x@.len(),
{
    let mut i: usize = from;
    let mut left: usize = room;
    while i < x.len() && char_width(x[i]) <= left
        invariant
            from <= i <= x@.len(),
            fitting(x@.skip(from as int), room as int) == (i - from) + fitting(
                x@.skip(i as int),
                left as int,
            ),
        decreases x@.len() - i,
    {
        assert(x@.skip(i as int).skip(1) == x@.skip(i + 1));
        left = left - char_width(x[i]);
        i += 1;
    }
    i - from
}

/// The number of characters that stand before byte offset `n` of the characters from `from` on.
pub fn index_of_byte(x: &Vec<char>, from: usize, n: usize) -> (r: Option<usize>)
    requires
        from <= x@.len(),
    ensures
        r is Some <==> chars_before(x@.skip(from as int), n as int) is Some,
        r matches Some(k) ==> chars_before(x@.skip(from as int), n as int) == Some(k as int) && from
            + k <= x@.len(),
    decreases x@.len() - from,
{
    if n == 0 {
        return Some(0);
    }
    if from >= x.len() || char_width(x[from]) > n {
        return None;
    }
    assert(x@.skip(from as int).skip(1) == x@.skip(from + 1));
    match index_of_byte(x, from + 1, n - char_width(x[from])) {
        Some(k) => Some(k + 1),
        None => None,
    }
}

/// What stands from byte offset `n` on.
pub fn text_from_byte(s: &str, n: usize) -> (r: Option<String>)
    ensures
        r is Some <==> from_byte(s@, n as int) is Some,
        r matches Some(t) ==> from_byte(s@, n as int) == Some(t@),
{
    let x = text::chars_of(s);
    assert(x@.skip(0) == s@);
    match index_of_byte(&x, 0, n) {
        Some(k) => {
            let rest = text::text_between(&x, k, x.len());
            assert(rest@ == s@.skip(k as int));
            Some(rest)
        },
        None => None,
    }
}

} // verus!
