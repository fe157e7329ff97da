//! What the standard library and other crates compute, on plain values: URL encoding, status lines,
//! time stamps, Base64 and hashes.

use crate::calendar;
use crate::models::Timestamp;
use crate::numbers;
use base64::Engine;
use std::collections::hash_map::DefaultHasher;
use std::hash::Hash;
use std::hash::Hasher;
use vstd::prelude::*;
use vstd::std_specs::hash::DefaultHasherAdditionalSpecFns;
use vstd::utf8;

verus! {

// URL encoding

/// The digit of a number below 16, in upper case.
pub open spec fn hex_digit(n: int) -> char {
    if n < 10 {
        (0x30 + n) as char
    } else {
        (0x41 + n - 10) as char
    }
}

/// The bytes that stand for themselves in a URL.
pub open spec fn is_unreserved(b: u8) -> bool {
    ||| 0x30 <= b <= 0x39
    ||| 0x41 <= b <= 0x5A
    ||| 0x61 <= b <= 0x7A
    ||| b == 0x2D
    ||| b == 0x2E
    ||| b == 0x5F
    ||| b == 0x7E
}

/// Bytes with each but the unreserved ones written as a percent sign and two digits.
pub open spec fn percent_encoded(s: Seq<u8>) -> Seq<char>
    decreases s.len(),
{
    if s.len() == 0 {
        seq![]
    } else if is_unreserved(s.last()) {
        percent_encoded(s.drop_last()).push(s.last() as char)
    } else {
        percent_encoded(s.drop_last()) + seq![
            '%',
            hex_digit((s.last() as int) / 16),
            hex_digit((s.last() as int) % 16),
        ]
    }
}

/// A text as part of a URL.
pub open spec fn url_encoded(t: Seq<char>) -> Seq<char> {
    percent_encoded(utf8::encode_utf8(t))
}

/// Encodes a text as part of a URL, with `urlencoding::encode`: every byte of its UTF-8 form is
/// percent-encoded but letters, digits, `-`, `.`, `_` and `~`.
#[verifier::external_body]
pub(crate) fn url_encode(t: &str) -> (r: String)
    ensures
        r@ == url_encoded(t@),
{
    urlencoding::encode(t).into_owned()
}

// Status lines

/// What `reqwest::StatusCode` displays for a code: the code and the phrase that belongs to it.
pub uninterp spec fn status_line(code: int) -> Seq<char>;

/// Displays a status code, with the `Display` of `reqwest::StatusCode`: the code in decimal, a space
/// and a phrase. Which phrase belongs to which code is left to the name `status_line`.
#[verifier::external_body]
pub(crate) fn status_text(code: u16) -> (r: String)
    requires
        100 <= code <= 999,
    ensures
        r@ == status_line(code as int),
        (numbers::decimal(code as nat) + " "@).is_prefix_of(r@),
{
    reqwest::StatusCode::from_u16(code).unwrap().to_string()
}

// Time stamps

/// What chrono writes for a moment in the form `%Y%m%dT%H%M%SZ`; nothing where the moment is out of
/// chrono's range.
pub uninterp spec fn compact_time(secs: int, nanos: int) -> Option<Seq<char>>;

/// Writes a moment in the form `%Y%m%dT%H%M%SZ`, with `chrono::DateTime::format` on the
/// `chrono::DateTime<chrono::Utc>` that `from_timestamp` makes of its seconds and nanoseconds. In
/// the years 0 to 9999 it is the date of the Gregorian calendar and the time of day, each number
/// padded with zeros; what other years and leap seconds give is left to the name `compact_time`.
#[verifier::external_body]
pub(crate) fn compact_stamp(t: Timestamp) -> (r: Option<String>)
    ensures
        r is Some <==> compact_time(t.secs as int, t.nanos as int) is Some,
        r matches Some(s) ==> compact_time(t.secs as int, t.nanos as int) == Some(s@),
        calendar::is_common(t) ==> r is Some,
        r matches Some(s) ==> (calendar::is_common(t) ==> calendar::is_stamp(s@, t.secs as int)),
{
    let moment = chrono::DateTime::<chrono::Utc>::from_timestamp(t.secs, t.nanos)?;
    Some(moment.format("%Y%m%dT%H%M%SZ").to_string())
}

// Base64

/// The character that stands for six bits.
pub open spec fn base64_digit(n: int) -> char {
    if n < 26 {
        (0x41 + n) as char
    } else if n < 52 {
        (0x61 + n - 26) as char
    } else if n < 62 {
        (0x30 + n - 52) as char
    } else if n == 62 {
        '+'
    } else {
        '/'
    }
}

/// The four characters that stand for three bytes.
pub open spec fn base64_group(a: int, b: int, c: int) -> Seq<char> {
    let n = a * 65536 + b * 256 + c;
    seq![
        base64_digit(n / 262144),
        base64_digit(n / 4096 % 64),
        base64_digit(n / 64 % 64),
        base64_digit(n % 64),
    ]
}

/// Bytes in Base64: three at a time, and equal signs where fewer than three are left.
pub open spec fn base64_text(s: Seq<u8>) -> Seq<char>
    decreases s.len(),
{
    if s.len() == 0 {
        seq![]
    } else if s.len() == 1 {
        base64_group(s[0] as int, 0, 0).take(2) + seq!['=', '=']
    } else if s.len() == 2 {
        base64_group(s[0] as int, s[1] as int, 0).take(3) + seq!['=']
    } else {
        base64_group(s[0] as int, s[1] as int, s[2] as int) + base64_text(s.skip(3))
    }
}

/// Encodes bytes in Base64, with `base64::engine::general_purpose::STANDARD.encode`: the standard
/// alphabet, with padding.
#[verifier::external_body]
pub(crate) fn base64_encode(data: &Vec<u8>) -> (r: String)
    ensures
        r@ == base64_text(data@),
{
    base64::engine::general_purpose::STANDARD.encode(data)
}

// Hashes

/// What `<str as std::hash::Hash>::hash` writes to a hasher for a text.
pub uninterp spec fn hash_writes(t: Seq<char>) -> Seq<Seq<u8>>;

/// The hash of a text that a new `DefaultHasher` computes.
pub open spec fn default_hash(t: Seq<char>) -> u64 {
    DefaultHasher::spec_finish(hash_writes(t))
}

/// Hands a text to a hasher, with `<str as std::hash::Hash>::hash`: what is written is a function of
/// the text, for one release of the standard library, and comes behind what was written before.
#[verifier::external_body]
fn hash_into(t: &str, hasher: &mut DefaultHasher)
    ensures
        final(hasher)@ == old(hasher)@ + hash_writes(t@),
{
    t.hash(hasher);
}

/// The hash of a text that a new `DefaultHasher` computes; all of them are alike.
pub(crate) fn hash_text(t: &str) -> (r: u64)
    ensures
        r == default_hash(t@),
{
    let mut hasher = DefaultHasher::new();
    hash_into(t, &mut hasher);
    assert(hasher@ =~= hash_writes(t@));
    hasher.finish()
}

} // verus!
