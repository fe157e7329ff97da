//! Decimal numerals.

use crate::chars;
use crate::text;
use vstd::prelude::*;

verus! {

/// The character that stands for a digit.
pub open spec fn digit_char(d: nat) -> char {
    (0x30 + d) as char
}

/// A natural number in decimal, without leading zeros.
pub open spec fn decimal(n: nat) -> Seq<char>
    decreases n,
{
    if n < 10 {
        seq![digit_char(n)]
    } else {
        decimal(n / 10).push(digit_char(n % 10))
    }
}

/// The last digits of a natural number in decimal, with leading zeros where it has fewer.
pub open spec fn padded(n: nat, width: nat) -> Seq<char>
    decreases width,
{
    if width == 0 {
        seq![]
    } else {
        padded(n / 10, (width - 1) as nat).push(digit_char(n % 10))
    }
}

/// The number of numbers that a number of digits can stand for.
pub open spec fn room(width: nat) -> int
    decreases width,
{
    if width == 0 {
        1
    } else {
        10 * room((width - 1) as nat)
    }
}

/// An integer in decimal, with a sign where it is negative.
pub open spec fn decimal_int(n: int) -> Seq<char> {
    if n < 0 {
        seq!['-'] + decimal((-n) as nat)
    } else {
        decimal(n as nat)
    }
}

/// The number that a run of digits stands for.
pub open spec fn value(s: Seq<char>) -> nat
    decreases s.len(),
{
    if s.len() == 0 {
        0
    } else {
        10 * value(s.drop_last()) + ((s.last() as u32) - 0x30) as nat
    }
}

pub open spec fn all_digits(s: Seq<char>) -> bool {
    forall|i: int| 0 <= i < s.len() ==> #[trigger] chars::is_digit(s[i])
}

/// The integer that a numeral stands for: a plus sign (or, for signed numbers, a minus sign) or
/// none, then one or more digits.
pub open spec fn parse(s: Seq<char>, signed: bool) -> Option<int> {
    let negative = signed && s.len() > 0 && s[0] == '-';
    let digits = if s.len() > 0 && (s[0] == '+' || negative) {
        s.skip(1)
    } else {
        s
    };
    if digits.len() == 0 || !all_digits(digits) {
        None
    } else if negative {
        Some(-(value(digits) as int))
    } else {
        Some(value(digits) as int)
    }
}

/// The integer that a numeral stands for, where it lies between `low` and `high`.
pub open spec fn parse_between(s: Seq<char>, low: int, high: int) -> Option<int> {
    match parse(s, low < 0) {
        Some(n) => if low <= n <= high {
            Some(n)
        } else {
            None
        },
        None => None,
    }
}

pub proof fn lemma_padded_length(n: nat, width: nat)
    ensures
        padded(n, width).len() == width,
    decreases width,
{
    if width > 0 {
        lemma_padded_length(n / 10, (width - 1) as nat);
    }
}

/// Appends a natural number in decimal.
pub fn push_decimal(s: &mut String, n: u64)
    ensures
        final(s)@ == old(s)@ + decimal(n as nat),
    decreases n,
{
    let ghost start = s@;
    if n >= 10 {
        push_decimal(s, n / 10);
    }
    let ghost mid = s@;
    let d: u8 = 0x30 + (n % 10) as u8;
    s.push(d as char);
    assert(mid.push(d as char) == start + decimal(n as nat));
}

/// A natural number in decimal.
pub fn decimal_text(n: usize) -> (r: String)
    ensures
        r@ == decimal(n as nat),
{
    let mut r = String::new();
    push_decimal(&mut r, n as u64);
    assert(r@ == decimal(n as nat));
    r
}

/// An integer in decimal, with a sign where it is negative.
pub fn decimal_int_text(n: i64) -> (r: String)
    ensures
        r@ == decimal_int(n as int),
{
    let mut r = String::new();
    if n < 0 {
        r.push('-');
        assert(r@ =~= seq!['-']);
        let m: u64 = if n == i64::MIN {
            0x8000_0000_0000_0000u64
        } else {
            (-n) as u64
        };
        push_decimal(&mut r, m);
    } else {
        push_decimal(&mut r, n as u64);
    }
    assert(r@ =~= decimal_int(n as int));
    r
}

/// The integer that a numeral stands for, where it lies between `low` and `high`.
#[verifier::loop_isolation(false)]
pub fn parse_number(s: &str, low: i64, high: u64) -> (r: Option<i128>)
    requires
        low <= 0,
    ensures
        r is Some <==> parse_between(s@, low as int, high as int) is Some,
        r matches Some(n) ==> parse_between(s@, low as int, high as int) == Some(n as int),
{
    let x = text::chars_of(s);
    let negative = low < 0 && x.len() > 0 && x[0] == '-';
    let mut i: usize = 0;
    if x.len() > 0 && (x[0] == '+' || negative) {
        i = 1;
    }
    let ghost digits = x@.skip(i as int);
    assert(x@.skip(0) == x@);
    if i >= x.len() {
        return None;
    }
    let start = i;
    let mut n: i128 = 0;
    let mut over = false;
    assert(digits.take(0) =~= seq![]);
    while i < x.len()
        invariant
            start <= i <= x@.len(),
            digits == x@.skip(start as int),
            forall|j: int| 0 <= j < i - start ==> #[trigger] chars::is_digit(digits[j]),
            !over ==> n == value(digits.take(i - start)) && n <= 0x1_0000_0000_0000_0000,
            over ==> value(digits.take(i - start)) > 0x1_0000_0000_0000_0000,
        decreases x@.len() - i,
    {
        if !chars::digit(x[i]) {
            assert(!chars::is_digit(digits[i - start]));
            return None;
        }
        let ghost k = i - start;
        assert(digits.take(k + 1).drop_last() == digits.take(k));
        assert(digits.take(k + 1).last() == x@[i as int]);
        assert(value(digits.take(k + 1)) == 10 * value(digits.take(k)) + ((x@[i as int] as u32)
            - 0x30));
        let d: i128 = (x[i] as u32 - 0x30) as i128;
        if !over {
            n = n * 10 + d;
            if n > 0x1_0000_0000_0000_0000 {
                over = true;
                n = 0;
            }
        }
        i += 1;
    }
    assert(digits.take(i - start) == digits);
    if over {
        return None;
    }
    if negative {
        n = -n;
    }
    if low as i128 <= n && n <= high as i128 {
        Some(n)
    } else {
        None
    }
}

/// The number of leading digits.
pub open spec fn digits_before(s: Seq<char>) -> int
    decreases s.len(),
{
    if s.len() > 0 && chars::is_digit(s[0]) {
        1 + digits_before(s.skip(1))
    } else {
        0
    }
}

pub proof fn lemma_digits_before(s: Seq<char>)
    ensures
        0 <= digits_before(s) <= s.len(),
        forall|i: int| 0 <= i < digits_before(s) ==> chars::is_digit(s[i]),
        digits_before(s) < s.len() ==> !chars::is_digit(s[digits_before(s)]),
    decreases s.len(),
{
    if s.len() > 0 && chars::is_digit(s[0]) {
        lemma_digits_before(s.skip(1));
        assert forall|i: int| 0 <= i < digits_before(s) implies chars::is_digit(s[i]) by {
            if i > 0 {
                assert(s.skip(1)[i - 1] == s[i]);
            }
        }
    }
}

/// The number of digits from a place in a text on.
pub fn count_digits(x: &Vec<char>, from: usize) -> (k: usize)
    requires
        from <= x@.len(),
    ensures
        k == digits_before(x@.skip(from as int)),
        from + k <= x@.len(),
{
    let mut k: usize = 0;
    while from + k < x.len() && chars::digit(x[from + k])
        invariant
            from + k <= x.len(),
            digits_before(x@.skip(from as int)) == k + digits_before(x@.skip(from + k)),
        decreases x.len() - k,
    {
        assert(x@.skip(from + k).skip(1) == x@.skip(from + k + 1));
        k += 1;
    }
    k
}

} // verus!
