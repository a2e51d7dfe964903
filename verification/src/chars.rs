//! Character classes, runs of characters, and conversions between text and
//! character sequences.

use vstd::prelude::*;
use vstd::std_specs::iter::IteratorSpec;

verus! {

/// The character that stands in for an escape sequence that names no character.
pub const REPLACEMENT: char = '\u{FFFD}';

/// The value of `c` as a digit (`0-9`, then `a-z` or `A-Z` for ten and up),
/// or 36 when `c` is no digit at all.
pub open spec fn digit_value(c: char) -> int {
    if '0' <= c <= '9' {
        c as int - '0' as int
    } else if 'a' <= c <= 'z' {
        c as int - 'a' as int + 10
    } else if 'A' <= c <= 'Z' {
        c as int - 'A' as int + 10
    } else {
        36
    }
}

/// Whether `c` is a digit in the given radix.
pub open spec fn is_digit(c: char, radix: int) -> bool {
    digit_value(c) < radix
}

pub open spec fn is_decimal_digit(c: char) -> bool {
    is_digit(c, 10)
}

pub open spec fn is_hex_digit(c: char) -> bool {
    is_digit(c, 16)
}

/// Whether a character beyond ASCII has the Unicode property `White_Space`.
pub uninterp spec fn unicode_white_space(c: char) -> bool;

/// The characters that separate tokens. Within ASCII these are the space and
/// the controls from tab to carriage return; beyond ASCII, the characters
/// with the Unicode property `White_Space`.
pub open spec fn is_space(c: char) -> bool {
    if (c as u32) < 0x80 {
        c == ' ' || '\t' <= c <= '\r'
    } else {
        unicode_white_space(c)
    }
}

/// The characters that end a line.
pub open spec fn is_line_end(c: char) -> bool {
    c == '\n' || c == '\r' || c == '\x0B' || c == '\x0C' || c == '\u{85}' || c == '\u{2028}' || c
        == '\u{2029}'
}

pub open spec fn is_ident_start(c: char) -> bool {
    'a' <= c <= 'z' || 'A' <= c <= 'Z' || c == '_'
}

pub open spec fn is_ident_continue(c: char) -> bool {
    is_ident_start(c) || '0' <= c <= '9'
}

/// The code points that are characters: all up to `0x10FFFF` but the surrogates.
pub open spec fn is_scalar_value(v: int) -> bool {
    0 <= v <= 0xD7FF || 0xE000 <= v <= 0x10FFFF
}

/// Every character is a scalar value.
pub proof fn lemma_char_is_scalar(c: char)
    ensures
        is_scalar_value(c as int),
{
}

/// Calls `chumsky::text::Character::is_whitespace` for `char`, which asks
/// `char::is_whitespace`. Nothing is claimed of the answer but that it
/// depends on the character alone.
#[verifier::external_body]
fn has_white_space_property(c: char) -> (r: bool)
    ensures
        r == unicode_white_space(c),
{
    chumsky::text::Character::is_whitespace(&c)
}

/// Calls `chumsky::text::Character::is_digit` for `char`, which asks
/// `char::is_digit`: true exactly for `0-9`, `a-z` and `A-Z` whose value is
/// below the radix. The radix must lie between 2 and 36.
#[verifier::external_body]
fn has_digit_value(c: char, radix: u32) -> (r: bool)
    requires
        2 <= radix <= 36,
    ensures
        r == is_digit(c, radix as int),
{
    chumsky::text::Character::is_digit(&c, radix)
}

/// `String::push` appends one character to the end of the string.
pub assume_specification[ std::string::String::push ](s: &mut std::string::String, ch: char)
    ensures
        final(s)@ == old(s)@.push(ch),
;

/// `char::from_u32` gives the character with the given code point, and
/// `None` for a surrogate or a number above `0x10FFFF`.
pub assume_specification[ char::from_u32 ](i: u32) -> (r: Option<char>)
    ensures
        r == if is_scalar_value(i as int) {
            Some(i as char)
        } else {
            None::<char>
        },
;

pub fn is_whitespace(c: char) -> (r: bool)
    ensures
        r == is_space(c),
{
    if (c as u32) < 0x80 {
        c == ' ' || ('\t' <= c && c <= '\r')
    } else {
        has_white_space_property(c)
    }
}

pub fn is_decimal(c: char) -> (r: bool)
    ensures
        r == is_decimal_digit(c),
{
    has_digit_value(c, 10)
}

pub fn is_hex(c: char) -> (r: bool)
    ensures
        r == is_hex_digit(c),
{
    has_digit_value(c, 16)
}

/// The value of a hexadecimal (hence also of a decimal) digit.
pub(crate) fn hex_digit(c: char) -> (v: u32)
    requires
        is_hex_digit(c),
    ensures
        v == digit_value(c),
{
    if '0' <= c && c <= '9' {
        c as u32 - '0' as u32
    } else if 'a' <= c && c <= 'f' {
        c as u32 - 'a' as u32 + 10
    } else {
        c as u32 - 'A' as u32 + 10
    }
}

pub fn is_newline(c: char) -> (r: bool)
    ensures
        r == is_line_end(c),
{
    c == '\n' || c == '\r' || c == '\x0B' || c == '\x0C' || c == '\u{85}' || c == '\u{2028}' || c
        == '\u{2029}'
}

pub fn starts_ident(c: char) -> (r: bool)
    ensures
        r == is_ident_start(c),
{
    ('a' <= c && c <= 'z') || ('A' <= c && c <= 'Z') || c == '_'
}

pub fn continues_ident(c: char) -> (r: bool)
    ensures
        r == is_ident_continue(c),
{
    starts_ident(c) || ('0' <= c && c <= '9')
}

/// Where the run of characters of one class that starts at `i` ends: the
/// first position from `i` on that holds a character outside the class, or
/// `limit`, or the end of the text, whichever comes first.
pub open spec fn run_end(s: Seq<char>, i: int, limit: int, class: spec_fn(char) -> bool) -> int
    decreases s.len() - i,
{
    if 0 <= i < s.len() && i < limit && class(s[i]) {
        run_end(s, i + 1, limit, class)
    } else {
        i
    }
}

pub proof fn lemma_run_end(s: Seq<char>, i: int, limit: int, class: spec_fn(char) -> bool)
    requires
        0 <= i <= s.len(),
    ensures
        i <= run_end(s, i, limit, class) <= s.len(),
        i <= limit ==> run_end(s, i, limit, class) <= limit,
        forall|k: int| i <= k < run_end(s, i, limit, class) ==> class(#[trigger] s[k]),
        run_end(s, i, limit, class) < s.len() && run_end(s, i, limit, class) < limit ==> !class(
            s[run_end(s, i, limit, class)],
        ),
    decreases s.len() - i,
{
    if i < s.len() && i < limit && class(s[i]) {
        lemma_run_end(s, i + 1, limit, class);
    }
}

/// A run ends at `j` if the class holds from `i` up to `j` and stops there.
pub proof fn lemma_run_end_is(
    s: Seq<char>,
    i: int,
    j: int,
    limit: int,
    class: spec_fn(char) -> bool,
)
    requires
        0 <= i <= j <= s.len(),
        j <= limit,
        forall|k: int| i <= k < j ==> class(#[trigger] s[k]),
        j == s.len() || j == limit || !class(s[j]),
    ensures
        run_end(s, i, limit, class) == j,
    decreases j - i,
{
    if i < j {
        lemma_run_end_is(s, i + 1, j, limit, class);
    }
}

/// The number that a sequence of digits writes in the given radix.
pub open spec fn digits_value(digits: Seq<char>, radix: nat) -> nat
    decreases digits.len(),
{
    if digits.len() == 0 {
        0
    } else {
        digits_value(digits.drop_last(), radix) * radix + digit_value(digits.last()) as nat
    }
}

/// The character at position `i`.
pub(crate) fn char_at(src: &[char], i: usize) -> (c: char)
    requires
        i < src.len(),
    ensures
        c == src@[i as int],
{
    src[i]
}

/// The characters of a string, one by one.
pub fn to_chars(s: &str) -> (v: Vec<char>)
    ensures
        v@ == s@,
{
    broadcast use vstd::string::group_string_axioms;

    let mut v: Vec<char> = Vec::new();
    let mut it = s.chars();
    loop
        invariant
            v@ + it.remaining() == s@,
        ensures
            it.remaining().len() == 0,
        decreases s@.len() - v@.len(),
    {
        match it.next() {
            Some(c) => {
                v.push(c);
            },
            None => {
                break ;
            },
        }
    }
    v
}

/// The text that stands at the positions `[start, end)`.
pub(crate) fn text_of(src: &[char], start: usize, end: usize) -> (s: String)
    requires
        start <= end <= src.len(),
    ensures
        s@ == src@.subrange(start as int, end as int),
{
    let mut s = String::new();
    let mut i: usize = start;
    while i < end
        invariant
            start <= i <= end <= src.len(),
            s@ == src@.subrange(start as int, i as int),
        decreases end - i,
    {
        s.push(src[i]);
        i += 1;
    }
    s
}

} // verus!
