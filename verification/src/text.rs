//! Text: what the functions of the standard library on text and numbers give.
use core::num::ParseIntError;
use core::str::Utf8Error;
use vstd::prelude::*;
use vstd::utf8::{decode_utf8, is_ascii_chars, valid_utf8};

verus! {

/// `core::str::Utf8Error`: why bytes are not UTF-8. Nothing is stated of its contents.
#[verifier::external_type_specification]
#[verifier::external_body]
pub struct ExUtf8Error(core::str::Utf8Error);

/// `core::num::ParseIntError`: why a text is not a number. Nothing is stated of its contents.
#[verifier::external_type_specification]
#[verifier::external_body]
pub struct ExParseIntError(core::num::ParseIntError);

/// `str == str`: whether two texts have the same characters.
#[verifier::external_body]
pub(crate) fn str_eq(a: &str, b: &str) -> (res: bool)
    ensures
        res == (a@ == b@),
{
    a == b
}

/// `str::strip_prefix`: what follows `prefix` in `s`, if `s` begins with it.
#[verifier::external_body]
pub(crate) fn strip_prefix<'a>(s: &'a str, prefix: &str) -> (res: Option<&'a str>)
    ensures
        res is Some <==> prefix@.is_prefix_of(s@),
        res matches Some(rest) ==> rest@ == s@.skip(prefix@.len() as int),
{
    s.strip_prefix(prefix)
}

/// `str::ends_with`: whether `s` ends in `suffix`.
#[verifier::external_body]
pub(crate) fn ends_with(s: &str, suffix: &str) -> (res: bool)
    ensures
        res == suffix@.is_suffix_of(s@),
{
    s.ends_with(suffix)
}

/// Whether `part` stands somewhere in `s`.
pub open spec fn occurs(part: Seq<char>, s: Seq<char>) -> bool {
    exists|i: int|
        0 <= i <= s.len() - part.len() && #[trigger] s.subrange(i, i + part.len()) == part
}

/// `str::contains`, with a text as the pattern: whether `part` stands somewhere in `s`.
#[verifier::external_body]
pub(crate) fn contains(s: &str, part: &str) -> (res: bool)
    ensures
        res == occurs(part@, s@),
{
    s.contains(part)
}

/// What stands before and after the first `sep` in `s`, if there is one.
pub open spec fn split_at_first(s: Seq<char>, sep: char) -> Option<(Seq<char>, Seq<char>)>
    decreases s.len(),
{
    if s.len() == 0 {
        None
    } else if s[0] == sep {
        Some((Seq::empty(), s.drop_first()))
    } else {
        match split_at_first(s.drop_first(), sep) {
            Some((before, after)) => Some((seq![s[0]] + before, after)),
            None => None,
        }
    }
}

/// `str::split_once`, with a character as the pattern: the text before and after the first
/// `sep` in `s`, or nothing where `sep` does not occur.
#[verifier::external_body]
pub(crate) fn split_once<'a>(s: &'a str, sep: char) -> (res: Option<(&'a str, &'a str)>)
    ensures
        match res {
            Some((a, b)) => split_at_first(s@, sep) == Some((a@, b@)),
            None => split_at_first(s@, sep) is None,
        },
{
    s.split_once(sep)
}

/// The characters with the Unicode property `White_Space`.
pub open spec fn is_white_space(c: char) -> bool {
    let u = c as int;
    ||| 0x9 <= u <= 0xd
    ||| u == 0x20 || u == 0x85 || u == 0xa0 || u == 0x1680
    ||| 0x2000 <= u <= 0x200a
    ||| u == 0x2028 || u == 0x2029 || u == 0x202f || u == 0x205f || u == 0x3000
}

/// `s` without the white space at both of its ends.
pub open spec fn trimmed(s: Seq<char>) -> Seq<char>
    decreases s.len(),
{
    if s.len() > 0 && is_white_space(s.first()) {
        trimmed(s.drop_first())
    } else if s.len() > 0 && is_white_space(s.last()) {
        trimmed(s.drop_last())
    } else {
        s
    }
}

/// `str::trim`: the text without leading and trailing characters of the Unicode property
/// `White_Space`.
#[verifier::external_body]
pub(crate) fn trim(s: &str) -> (res: &str)
    ensures
        res@ == trimmed(s@),
{
    s.trim()
}

/// The lower case of an ASCII capital; any other character stays.
pub open spec fn ascii_lower(c: char) -> char {
    if 'A' <= c <= 'Z' {
        (c as u32 + 32) as char
    } else {
        c
    }
}

/// `s` with its ASCII capitals in lower case.
pub open spec fn lowered(s: Seq<char>) -> Seq<char> {
    s.map_values(|c: char| ascii_lower(c))
}

/// `str::to_ascii_lowercase`: a copy with `A` to `Z` mapped to `a` to `z` and every other
/// character unchanged.
#[verifier::external_body]
pub(crate) fn to_ascii_lowercase(s: &str) -> (res: String)
    ensures
        res@ == lowered(s@),
{
    s.to_ascii_lowercase()
}

/// The upper case of an ASCII letter; any other character stays.
pub open spec fn ascii_upper(c: char) -> char {
    if 'a' <= c <= 'z' {
        (c as u32 - 32) as char
    } else {
        c
    }
}

/// What `str::to_uppercase` makes of a text that is not all ASCII.
pub uninterp spec fn unicode_uppercased(s: Seq<char>) -> Seq<char>;

/// `s` in upper case.
pub open spec fn uppercased(s: Seq<char>) -> Seq<char> {
    if is_ascii_chars(s) {
        s.map_values(|c: char| ascii_upper(c))
    } else {
        unicode_uppercased(s)
    }
}

/// `str::to_uppercase`: the upper case of a text. Of ASCII text, that is `A` to `Z` for `a` to
/// `z`, and every other character unchanged; beyond, it goes by the Unicode tables, which are not
/// stated.
#[verifier::external_body]
pub(crate) fn to_uppercase(s: &str) -> (res: String)
    ensures
        is_ascii_chars(s@) ==> res@ == s@.map_values(|c: char| ascii_upper(c)),
        !is_ascii_chars(s@) ==> res@ == unicode_uppercased(s@),
{
    s.to_uppercase()
}

/// Whether `char::is_numeric` holds of a character that is not ASCII.
pub uninterp spec fn unicode_is_numeric(c: char) -> bool;

/// Whether a character is a number.
pub open spec fn is_numeric(c: char) -> bool {
    if (c as u32) < 128 {
        '0' <= c <= '9'
    } else {
        unicode_is_numeric(c)
    }
}

/// `char::is_numeric`: whether a character is of the Unicode categories Nd, Nl or No. Of ASCII, the
/// ten digits are; beyond, it goes by the Unicode tables, which are not stated.
#[verifier::external_body]
pub(crate) fn char_is_numeric(c: char) -> (res: bool)
    ensures
        (c as u32) < 128 ==> res == ('0' <= c <= '9'),
        (c as u32) >= 128 ==> res == unicode_is_numeric(c),
{
    c.is_numeric()
}

/// The value of `c` as a digit in base `radix`.
pub open spec fn digit_value(c: char, radix: u32) -> Option<nat> {
    let d = if '0' <= c <= '9' {
        c as int - '0' as int
    } else if 'a' <= c <= 'z' {
        c as int - 'a' as int + 10
    } else if 'A' <= c <= 'Z' {
        c as int - 'A' as int + 10
    } else {
        radix as int
    };
    if d < radix {
        Some(d as nat)
    } else {
        None
    }
}

/// The number that `s` writes in base `radix`, if it holds nothing but digits.
pub open spec fn digits_value(s: Seq<char>, radix: u32) -> Option<nat>
    decreases s.len(),
{
    if s.len() == 0 {
        Some(0)
    } else {
        match (digits_value(s.drop_last(), radix), digit_value(s.last(), radix)) {
            (Some(v), Some(d)) => Some(v * radix as nat + d),
            _ => None,
        }
    }
}

/// The `u16` that `s` writes in base `radix`: an optional `+`, then one digit or more.
pub open spec fn u16_written(s: Seq<char>, radix: u32) -> Option<u16> {
    let digits = if s.len() > 0 && s[0] == '+' {
        s.skip(1)
    } else {
        s
    };
    match digits_value(digits, radix) {
        Some(v) => if digits.len() > 0 && v <= u16::MAX {
            Some(v as u16)
        } else {
            None
        },
        None => None,
    }
}

/// The error of `u16::from_str_radix` on a text that writes no `u16`.
pub uninterp spec fn u16_error(s: Seq<char>, radix: u32) -> ParseIntError;

/// `u16::from_str_radix`: the number that an optional `+` and then digits of base `radix` write;
/// an error where the text is anything else, or the number does not fit. Which error it is goes by
/// the text and the base alone, and is not stated further.
pub assume_specification[ u16::from_str_radix ](src: &str, radix: u32) -> (res: Result<
    u16,
    ParseIntError,
>)
    requires
        2 <= radix <= 36,
    ensures
        match res {
            Ok(v) => u16_written(src@, radix) == Some(v),
            Err(e) => u16_written(src@, radix) is None && e == u16_error(src@, radix),
        },
;

/// The hexadecimal digit of `d`, in lower case.
pub open spec fn hex_digit(d: int) -> char {
    if d < 10 {
        (48 + d) as char
    } else {
        (87 + d) as char
    }
}

/// `v` in four hexadecimal digits.
pub open spec fn hex4(v: u16) -> Seq<char> {
    let n = v as int;
    seq![
        hex_digit(n / 4096),
        hex_digit(n / 256 % 16),
        hex_digit(n / 16 % 16),
        hex_digit(n % 16),
    ]
}

/// `format!("{:04x}")`: lower-case hexadecimal, filled up with zeros to four digits, which is
/// as many as a `u16` can have.
#[verifier::external_body]
pub(crate) fn format_hex4(v: u16) -> (res: String)
    ensures
        res@ == hex4(v),
{
    format!("{:04x}", v)
}

/// The error of `core::str::from_utf8` on bytes that are not UTF-8.
pub uninterp spec fn utf8_error(bytes: Seq<u8>) -> Utf8Error;

/// `core::str::from_utf8`: the text that the bytes encode, or an error where they are not
/// UTF-8. Which error it is goes by the bytes alone, and is not stated further.
pub assume_specification<'a>[ core::str::from_utf8 ](v: &'a [u8]) -> (res: Result<
    &'a str,
    Utf8Error,
>)
    ensures
        res is Ok <==> valid_utf8(v@),
        res matches Ok(s) ==> s@ == decode_utf8(v@),
        res matches Err(e) ==> e == utf8_error(v@),
;

} // verus!
