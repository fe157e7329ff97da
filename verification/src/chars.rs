//! Character classes, and the two Unicode mappings that the standard library computes.

use crate::text;
use vstd::prelude::*;
use vstd::utf8;

verus! {

/// The characters with the Unicode property `White_Space`.
pub open spec fn is_white(c: char) -> bool {
    let n = c as u32;
    ||| 0x9 <= n <= 0xD
    ||| n == 0x20
    ||| n == 0x85
    ||| n == 0xA0
    ||| n == 0x1680
    ||| 0x2000 <= n <= 0x200A
    ||| n == 0x2028
    ||| n == 0x2029
    ||| n == 0x202F
    ||| n == 0x205F
    ||| n == 0x3000
}

/// The characters of the Unicode general category `Cc`.
pub open spec fn is_control(c: char) -> bool {
    let n = c as u32;
    n <= 0x1F || 0x7F <= n <= 0x9F
}

pub open spec fn is_digit(c: char) -> bool {
    0x30 <= c as u32 <= 0x39
}

pub open spec fn is_ascii_upper(c: char) -> bool {
    0x41 <= c as u32 <= 0x5A
}

pub open spec fn is_ascii_letter(c: char) -> bool {
    is_ascii_upper(c) || 0x61 <= c as u32 <= 0x7A
}

pub open spec fn is_ascii_alphanumeric(c: char) -> bool {
    is_ascii_letter(c) || is_digit(c)
}

/// `A` to `Z` become `a` to `z`; every other character stays.
pub open spec fn ascii_lower(c: char) -> char {
    if is_ascii_upper(c) {
        ((c as u32) + 32) as char
    } else {
        c
    }
}

pub open spec fn ascii_lowered(s: Seq<char>) -> Seq<char> {
    Seq::new(s.len(), |i: int| ascii_lower(s[i]))
}

/// Whether a character has the Unicode property `White_Space`.
pub fn white(c: char) -> (r: bool)
    ensures
        r == is_white(c),
{
    let n = c as u32;
    (0x9 <= n && n <= 0xD) || n == 0x20 || n == 0x85 || n == 0xA0 || n == 0x1680 || (0x2000 <= n && n
        <= 0x200A) || n == 0x2028 || n == 0x2029 || n == 0x202F || n == 0x205F || n == 0x3000
}

/// Whether a character is a control character.
pub fn control(c: char) -> (r: bool)
    ensures
        r == is_control(c),
{
    let n = c as u32;
    n <= 0x1F || (0x7F <= n && n <= 0x9F)
}

/// Whether a character is one of `0` to `9`.
pub fn digit(c: char) -> (r: bool)
    ensures
        r == is_digit(c),
{
    let n = c as u32;
    0x30 <= n && n <= 0x39
}

/// Whether a character is an ASCII letter or digit.
pub fn ascii_alphanumeric(c: char) -> (r: bool)
    ensures
        r == is_ascii_alphanumeric(c),
{
    let n = c as u32;
    (0x41 <= n && n <= 0x5A) || (0x61 <= n && n <= 0x7A) || (0x30 <= n && n <= 0x39)
}

/// Whether the code point of one character is below that of another.
pub fn below(c: char, d: char) -> (r: bool)
    ensures
        r == ((c as int) < (d as int)),
{
    (c as u32) < (d as u32)
}

/// The ASCII lower-case form of a character.
pub fn to_ascii_lower(c: char) -> (r: char)
    ensures
        r == ascii_lower(c),
{
    let n = c as u32;
    if 0x41 <= n && n <= 0x5A {
        let low: u8 = (n + 32) as u8;
        low as char
    } else {
        c
    }
}

/// What `str::to_lowercase` makes of the characters of a text that are not ASCII, each at its place.
pub uninterp spec fn unicode_lowercase(s: Seq<char>) -> Seq<Seq<char>>;

/// What becomes of one character: ASCII letters are lowered, and `other` is what becomes of a
/// character that is not ASCII.
pub open spec fn lowered_char(c: char, other: Seq<char>) -> Seq<char> {
    if (c as u32) < 128 {
        seq![ascii_lower(c)]
    } else {
        other
    }
}

/// A text lowered character by character, given what becomes of those that are not ASCII.
pub open spec fn lowered(s: Seq<char>, others: Seq<Seq<char>>) -> Seq<char>
    decreases s.len(),
{
    if s.len() == 0 {
        seq![]
    } else {
        lowered(s.drop_last(), others) + lowered_char(s.last(), others[s.len() - 1])
    }
}

/// The lower-case form of a text: ASCII characters are lowered letter by letter, wherever they
/// stand.
pub open spec fn lowercase(s: Seq<char>) -> Seq<char> {
    if utf8::is_ascii_chars(s) {
        ascii_lowered(s)
    } else {
        lowered(s, unicode_lowercase(s))
    }
}

/// Calls `str::to_lowercase`. The result depends on the text alone. ASCII characters are lowered
/// one by one, wherever they stand; what Unicode's case mapping makes of another character, which
/// may depend on the text around it, is left to the name `unicode_lowercase`.
#[verifier::external_body]
pub(crate) fn to_lowercase(s: &str) -> (r: String)
    ensures
        r@ == lowercase(s@),
        !utf8::is_ascii_chars(s@) ==> r@ == lowered(s@, unicode_lowercase(s@)),
{
    s.to_lowercase()
}

/// An ASCII stretch is lowered letter by letter, whatever stands before it.
proof fn lemma_lowered_stretch(a: Seq<char>, b: Seq<char>, others: Seq<Seq<char>>)
    requires
        utf8::is_ascii_chars(b),
    ensures
        lowered(a + b, others) == lowered(a, others) + ascii_lowered(b),
    decreases b.len(),
{
    if b.len() == 0 {
        assert(a + b =~= a);
        assert(lowered(a, others) + ascii_lowered(b) =~= lowered(a, others));
    } else {
        let front = b.drop_last();
        assert(utf8::is_ascii_chars(front));
        lemma_lowered_stretch(a, front, others);
        assert((a + b).drop_last() =~= a + front);
        assert((a + b).last() == b[b.len() - 1]);
        assert(ascii_lowered(b) =~= ascii_lowered(front) + seq![ascii_lower(b.last())]);
        assert(lowered(a + b, others) =~= lowered(a, others) + ascii_lowered(b));
    }
}

/// What becomes of a text does not depend on how it goes on, where the other characters become the
/// same.
proof fn lemma_lowered_grows(a: Seq<char>, b: Seq<char>, others: Seq<Seq<char>>)
    ensures
        lowered(a, others).len() <= lowered(a + b, others).len(),
        lowered(a + b, others).take(lowered(a, others).len() as int) == lowered(a, others),
    decreases b.len(),
{
    if b.len() == 0 {
        assert(a + b =~= a);
    } else {
        lemma_lowered_grows(a, b.drop_last(), others);
        assert((a + b).drop_last() =~= a + b.drop_last());
        let n = lowered(a, others).len() as int;
        assert(lowered(a + b, others).take(n) =~= lowered(a + b.drop_last(), others).take(n));
    }
}

/// ASCII text is lowered letter by letter, whatever else is said to become of other characters.
proof fn lemma_lowered_ascii(s: Seq<char>, others: Seq<Seq<char>>)
    requires
        utf8::is_ascii_chars(s),
    ensures
        lowered(s, others) == ascii_lowered(s),
{
    lemma_lowered_stretch(Seq::empty(), s, others);
    assert(Seq::<char>::empty() + s =~= s);
    assert(lowered(Seq::<char>::empty(), others) + ascii_lowered(s) =~= ascii_lowered(s));
}

/// An ASCII stretch of a text stands in its lower-case form letter by letter, whatever stands before
/// and behind it.
pub proof fn law_ascii_is_lowered(a: Seq<char>, b: Seq<char>, c: Seq<char>)
    requires
        utf8::is_ascii_chars(b),
    ensures
        text::contains(lowercase(a + b + c), ascii_lowered(b)),
{
    let s = a + b + c;
    let others = unicode_lowercase(s);
    if utf8::is_ascii_chars(s) {
        lemma_lowered_ascii(s, others);
    }
    lemma_lowered_stretch(a, b, others);
    lemma_lowered_grows(a + b, c, others);
    let low = lowercase(s);
    let n = lowered(a, others).len() as int;
    let m = ascii_lowered(b).len() as int;
    let head = lowered(a + b, others);
    assert(low.subrange(n, n + m) =~= ascii_lowered(b)) by {
        assert forall|i: int| 0 <= i < m implies low[n + i] == ascii_lowered(b)[i] by {
            assert(low.take(head.len() as int)[n + i] == head[n + i]);
        }
    }
    assert(text::occurs_at(low, ascii_lowered(b), n));
}

/// The characters with numbers below 128 are those up to the last one of ASCII.
proof fn lemma_ascii_char(c: char)
    requires
        (c as u32) < 128,
    ensures
        '\0' <= c <= '\u{7f}',
{
}

/// An ASCII beginning is lowered letter by letter, whatever follows it.
pub proof fn lemma_lowercase_beginning(a: Seq<char>, b: Seq<char>)
    requires
        forall|i: int| 0 <= i < a.len() ==> (#[trigger] a[i] as u32) < 128,
    ensures
        lowercase(a + b).len() >= a.len(),
        lowercase(a + b).take(a.len() as int) == ascii_lowered(a),
{
    let others = unicode_lowercase(a + b);
    assert forall|i: int| 0 <= i < a.len() implies '\0' <= #[trigger] a[i] <= '\u{7f}' by {
        lemma_ascii_char(a[i]);
    }
    if utf8::is_ascii_chars(a + b) {
        lemma_lowered_ascii(a + b, others);
    }
    lemma_lowered_ascii(a, others);
    lemma_lowered_grows(a, b, others);
}

/// Whether `char::is_alphabetic` holds of a character that is not ASCII.
pub uninterp spec fn unicode_alphabetic(c: char) -> bool;

/// Whether a character has the Unicode property `Alphabetic`: of the ASCII characters the letters.
pub open spec fn alphabetic(c: char) -> bool {
    if (c as u32) < 128 {
        is_ascii_letter(c)
    } else {
        unicode_alphabetic(c)
    }
}

/// Calls `char::is_alphabetic`. The result depends on the character alone; of the ASCII characters
/// exactly the letters are alphabetic.
#[verifier::external_body]
pub(crate) fn is_alphabetic(c: char) -> (r: bool)
    ensures
        r == alphabetic(c),
        (c as u32) >= 128 ==> r == unicode_alphabetic(c),
{
    c.is_alphabetic()
}

} // verus!
