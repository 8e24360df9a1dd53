//! Text: what the library asks of the string functions of the standard
//! library, each behind a small function with a contract, and what the
//! contracts mean.

use vstd::prelude::*;
use vstd::utf8::{decode_utf8, valid_utf8};

verus! {

/// `String::from_utf8`: the text that `bytes` encode, or nothing where they
/// are not valid UTF-8.
#[verifier::external_body]
pub(crate) fn string_from_utf8(bytes: Vec<u8>) -> (r: Option<String>)
    ensures
        r.is_some() <==> valid_utf8(bytes@),
        r.is_some() ==> r.unwrap()@ == decode_utf8(bytes@),
{
    match String::from_utf8(bytes) {
        Ok(s) => Some(s),
        Err(_) => None,
    }
}

/// Whether the text `s` ends with the text `suffix`.
pub open spec fn spec_ends_with(s: Seq<char>, suffix: Seq<char>) -> bool {
    suffix.len() <= s.len() && s.subrange(s.len() - suffix.len(), s.len() as int) == suffix
}

/// `str::ends_with` with a string as the pattern: whether `suffix` matches
/// the end of `s`.
#[verifier::external_body]
pub(crate) fn str_ends_with(s: &str, suffix: &str) -> (b: bool)
    ensures
        b == spec_ends_with(s@, suffix@),
{
    s.ends_with(suffix)
}

/// `bytes` without its zero bytes.
pub open spec fn spec_strip_nul(bytes: Seq<u8>) -> Seq<u8>
    decreases bytes.len(),
{
    if bytes.len() == 0 {
        Seq::<u8>::empty()
    } else if bytes.last() == 0 {
        spec_strip_nul(bytes.drop_last())
    } else {
        spec_strip_nul(bytes.drop_last()).push(bytes.last())
    }
}

/// The bytes from `at` up to the first zero byte, or up to the end of `bytes`
/// where no zero byte follows.
pub open spec fn spec_until_nul(bytes: Seq<u8>, at: int) -> Seq<u8>
    decreases bytes.len() - at,
{
    if at < 0 || at >= bytes.len() || bytes[at] == 0 {
        Seq::<u8>::empty()
    } else {
        seq![bytes[at]] + spec_until_nul(bytes, at + 1)
    }
}

/// Whether a zero byte stands at or behind `at`.
pub open spec fn spec_has_nul(bytes: Seq<u8>, at: int) -> bool {
    exists|i: int| at <= i < bytes.len() && bytes[i] == 0
}

/// Whether the text `s` starts with the text `prefix`.
pub open spec fn spec_starts_with(s: Seq<char>, prefix: Seq<char>) -> bool {
    prefix.len() <= s.len() && s.subrange(0, prefix.len() as int) == prefix
}

/// `str::starts_with` with a string as the pattern: whether `prefix` matches
/// the start of `s`.
#[verifier::external_body]
pub(crate) fn str_starts_with(s: &str, prefix: &str) -> (b: bool)
    ensures
        b == spec_starts_with(s@, prefix@),
{
    s.starts_with(prefix)
}

/// The lower-case form of an ASCII capital letter; any other character as it is.
pub open spec fn spec_lower_char(c: char) -> char {
    if 'A' <= c && c <= 'Z' {
        ((c as u8) + 32) as char
    } else {
        c
    }
}

/// The upper-case form of an ASCII small letter; any other character as it is.
pub open spec fn spec_upper_char(c: char) -> char {
    if 'a' <= c && c <= 'z' {
        ((c as u8) - 32) as char
    } else {
        c
    }
}

/// `s` with every ASCII capital letter in lower case.
pub open spec fn spec_ascii_lower(s: Seq<char>) -> Seq<char> {
    s.map_values(|c: char| spec_lower_char(c))
}

/// `s` with every ASCII small letter in upper case.
pub open spec fn spec_ascii_upper(s: Seq<char>) -> Seq<char> {
    s.map_values(|c: char| spec_upper_char(c))
}

/// `str::to_ascii_lowercase`: a copy of `s` in which the ASCII letters `A` to
/// `Z` are mapped to `a` to `z` and every other character is unchanged.
#[verifier::external_body]
pub(crate) fn str_to_ascii_lowercase(s: &str) -> (r: String)
    ensures
        r@ == spec_ascii_lower(s@),
{
    s.to_ascii_lowercase()
}

/// `s` without the zero characters at its end.
pub open spec fn spec_trim_nul(s: Seq<char>) -> Seq<char>
    decreases s.len(),
{
    if s.len() > 0 && s.last() == '\0' {
        spec_trim_nul(s.drop_last())
    } else {
        s
    }
}

/// `str::trim_end_matches` with the zero character as the pattern: `s`
/// without the zero characters at its end.
#[verifier::external_body]
pub(crate) fn str_trim_end_nul(s: &str) -> (r: &str)
    ensures
        r@ == spec_trim_nul(s@),
{
    s.trim_end_matches('\0')
}

/// The text that `String::from_utf16` decodes from the UTF-16 code units
/// `units`, or nothing where they are not well-formed UTF-16.
pub uninterp spec fn spec_utf16_decode(units: Seq<u16>) -> Option<Seq<char>>;

/// `String::from_utf16`: the text that the code units encode, or nothing
/// where they hold an unpaired surrogate.
#[verifier::external_body]
pub(crate) fn string_from_utf16(units: &Vec<u16>) -> (r: Option<String>)
    ensures
        match r {
            Some(s) => spec_utf16_decode(units@) == Some(s@),
            None => spec_utf16_decode(units@).is_none(),
        },
{
    match String::from_utf16(units) {
        Ok(s) => Some(s),
        Err(_) => None,
    }
}

/// Lower case is a fixed point: a text in lower case stays as it is.
pub proof fn lemma_lower_idempotent(s: Seq<char>)
    ensures
        spec_ascii_lower(spec_ascii_lower(s)) == spec_ascii_lower(s),
{
    assert(spec_ascii_lower(spec_ascii_lower(s)) =~= spec_ascii_lower(s));
}

/// The lower-case form of a text does not depend on the case of its letters.
pub proof fn lemma_lower_of_upper(s: Seq<char>)
    ensures
        spec_ascii_lower(spec_ascii_upper(s)) == spec_ascii_lower(s),
{
    assert(spec_ascii_lower(spec_ascii_upper(s)) =~= spec_ascii_lower(s));
}

/// Whether `i` is the place of the first `=` in `s`.
pub open spec fn spec_first_eq(s: Seq<char>, i: int) -> bool {
    &&& 0 <= i < s.len()
    &&& s[i] == '='
    &&& forall|j: int| 0 <= j < i ==> s[j] != '='
}

/// Whether `s` holds an `=`.
pub open spec fn spec_has_eq(s: Seq<char>) -> bool {
    exists|i: int| spec_first_eq(s, i)
}

/// The place of the first `=` in `s`.
pub open spec fn spec_eq_index(s: Seq<char>) -> int {
    choose|i: int| spec_first_eq(s, i)
}

/// `str::split_once` with `=` as the pattern: the text in front of the
/// first `=` and the text behind it, or nothing where `s` holds no `=`.
#[verifier::external_body]
pub(crate) fn str_split_once_eq(s: &str) -> (r: Option<(&str, &str)>)
    ensures
        r.is_some() <==> spec_has_eq(s@),
        r.is_some() ==> r.unwrap().0@ == s@.subrange(0, spec_eq_index(s@)) && r.unwrap().1@
            == s@.subrange(spec_eq_index(s@) + 1, s@.len() as int),
{
    s.split_once('=')
}

/// `s` without the `-` characters at its start.
pub open spec fn spec_trim_start_dashes(s: Seq<char>) -> Seq<char>
    decreases s.len(),
{
    if s.len() > 0 && s[0] == '-' {
        spec_trim_start_dashes(s.drop_first())
    } else {
        s
    }
}

/// `s` without the `-` characters at its end.
pub open spec fn spec_trim_end_dashes(s: Seq<char>) -> Seq<char>
    decreases s.len(),
{
    if s.len() > 0 && s.last() == '-' {
        spec_trim_end_dashes(s.drop_last())
    } else {
        s
    }
}

/// `s` without the `-` characters at its start and at its end.
pub open spec fn spec_trim_dashes(s: Seq<char>) -> Seq<char> {
    spec_trim_end_dashes(spec_trim_start_dashes(s))
}

/// `str::trim_matches` with `-` as the pattern: `s` without the `-`
/// characters at its start and at its end.
#[verifier::external_body]
pub(crate) fn str_trim_dashes(s: &str) -> (r: &str)
    ensures
        r@ == spec_trim_dashes(s@),
{
    s.trim_matches('-')
}

/// Whether `c` is one of the digits `0` to `9`.
pub open spec fn spec_is_digit(c: char) -> bool {
    '0' <= c && c <= '9'
}

/// The number that the decimal digits `digits` spell.
pub open spec fn spec_decimal(digits: Seq<char>) -> int
    decreases digits.len(),
{
    if digits.len() == 0 {
        0
    } else {
        10 * spec_decimal(digits.drop_last()) + ((digits.last() as u32) as int - 48)
    }
}

/// The number that `s` spells: an optional `+` or `-`, then one decimal
/// digit or more, and nothing else; or nothing where `s` is not of that
/// form or the number does not fit in 64 bits.
pub open spec fn spec_parse_i64(s: Seq<char>) -> Option<i64> {
    let negative = s.len() > 0 && s[0] == '-';
    let signed = s.len() > 0 && (s[0] == '-' || s[0] == '+');
    let digits = if signed {
        s.drop_first()
    } else {
        s
    };
    let value = if negative {
        -spec_decimal(digits)
    } else {
        spec_decimal(digits)
    };
    if digits.len() == 0 || !(forall|i: int| 0 <= i < digits.len() ==> spec_is_digit(digits[i]))
        || value < i64::MIN || value > i64::MAX {
        None
    } else {
        Some(value as i64)
    }
}

/// `str::parse::<i64>`: the number that `s` spells, read as a decimal
/// number with an optional sign, or nothing where `s` is no such number or
/// the number does not fit.
#[verifier::external_body]
pub(crate) fn str_parse_i64(s: &str) -> (r: Option<i64>)
    ensures
        r == spec_parse_i64(s@),
{
    match s.parse::<i64>() {
        Ok(n) => Some(n),
        Err(_) => None,
    }
}

/// The lower-case form that `str::to_lowercase` gives of `s`, by the
/// rules of Unicode.
pub uninterp spec fn spec_unicode_lower(s: Seq<char>) -> Seq<char>;

/// `str::to_lowercase`: `s` in lower case.
#[verifier::external_body]
pub(crate) fn str_to_lowercase(s: &str) -> (r: String)
    ensures
        r@ == spec_unicode_lower(s@),
{
    s.to_lowercase()
}

} // verus!
