//! Integer and float literals.

use crate::chars::{
    digits_value, hex_digit, is_decimal, is_decimal_digit, lemma_run_end, run_end, text_of,
};
use crate::lexeme::{report, token_view, Lexeme};
use crate::span::{Error, ErrorKind};
use crate::token::{Literal, Token, TokenView};
use vstd::prelude::*;

verus! {

/// The greatest number that an integer literal can hold: the greatest
/// signed integer of 128 bits.
pub const INTEGER_MAX: u128 = 0x7FFF_FFFF_FFFF_FFFF_FFFF_FFFF_FFFF_FFFF;

/// The least number that an integer literal cannot hold: two to the power 127.
pub open spec fn integer_limit() -> nat {
    0x8000_0000_0000_0000_0000_0000_0000_0000
}

/// The class of the decimal digits.
pub open spec fn decimal_class() -> spec_fn(char) -> bool {
    |c: char| is_decimal_digit(c)
}

/// Where the run of decimal digits that starts at `i` ends.
pub open spec fn digits_end(s: Seq<char>, i: int) -> int {
    run_end(s, i, s.len() as int, decimal_class())
}

/// The number that a sequence of decimal digits writes.
pub open spec fn decimal_value(digits: Seq<char>) -> nat {
    digits_value(digits, 10)
}

/// Whether a number starts at `i`: a digit, or a point with a digit behind it.
pub open spec fn opens_number(s: Seq<char>, i: int) -> bool {
    0 <= i < s.len() && (is_decimal_digit(s[i]) || (s[i] == '.' && i + 1 < s.len()
        && is_decimal_digit(s[i + 1])))
}

/// Whether the point of a float stands at `d`, behind a run of digits. A
/// point that is followed by a second one belongs to a range, so that in
/// `1..2` both numbers are integers.
pub open spec fn has_fraction(s: Seq<char>, d: int) -> bool {
    0 <= d < s.len() && s[d] == '.' && !(d + 1 < s.len() && s[d + 1] == '.')
}

/// The number that starts at `i`.
///
/// Digits, a point and any further digits make a float, and so does a point
/// with digits behind it; a float is kept as it is written. Digits alone
/// make an integer, unless they write a number from `integer_limit()` on:
/// those give no token and one diagnostic.
pub open spec fn number_at(s: Seq<char>, i: int) -> Lexeme {
    if s[i] == '.' {
        let end = digits_end(s, i + 1);
        Lexeme::clean(TokenView::float(s.subrange(i, end)), end)
    } else {
        let d = digits_end(s, i);
        if has_fraction(s, d) {
            let end = digits_end(s, d + 1);
            Lexeme::clean(TokenView::float(s.subrange(i, end)), end)
        } else {
            let value = decimal_value(s.subrange(i, d));
            if value < integer_limit() {
                Lexeme::clean(TokenView::integer(value as u128), d)
            } else {
                Lexeme {
                    token: None,
                    errors: seq![Error::at(ErrorKind::IntegerOverflow, i, d)],
                    end: d,
                }
            }
        }
    }
}

/// A sequence of decimal digits writes no less than any of its prefixes.
pub proof fn lemma_decimal_value_prefix(digits: Seq<char>, k: int)
    requires
        0 <= k <= digits.len(),
    ensures
        decimal_value(digits.take(k)) <= decimal_value(digits),
    decreases digits.len(),
{
    if k < digits.len() {
        assert(digits.drop_last().take(k) =~= digits.take(k));
        lemma_decimal_value_prefix(digits.drop_last(), k);
    } else {
        assert(digits.take(k) =~= digits);
    }
}

fn scan_digits(src: &[char], start: usize) -> (end: usize)
    requires
        start <= src.len(),
    ensures
        end == digits_end(src@, start as int),
        start <= end <= src.len(),
        forall|k: int| start <= k < end ==> is_decimal_digit(#[trigger] src@[k]),
{
    let mut i: usize = start;
    while i < src.len() && is_decimal(src[i])
        invariant
            start <= i <= src.len(),
            digits_end(src@, start as int) == digits_end(src@, i as int),
        decreases src.len() - i,
    {
        i += 1;
    }
    proof {
        lemma_run_end(src@, start as int, src@.len() as int, decimal_class());
    }
    i
}

/// The value of the decimal digits at `[start, end)`, if it is below
/// `integer_limit()`.
fn decimal_of(src: &[char], start: usize, end: usize) -> (r: Option<u128>)
    requires
        start <= end <= src.len(),
        forall|k: int| start <= k < end ==> is_decimal_digit(#[trigger] src@[k]),
    ensures
        r == if decimal_value(src@.subrange(start as int, end as int)) < integer_limit() {
            Some(decimal_value(src@.subrange(start as int, end as int)) as u128)
        } else {
            None
        },
{
    let ghost digits = src@.subrange(start as int, end as int);
    let mut value: u128 = 0;
    let mut i: usize = start;
    while i < end
        invariant
            start <= i <= end <= src.len(),
            digits == src@.subrange(start as int, end as int),
            forall|k: int| start <= k < end ==> is_decimal_digit(#[trigger] src@[k]),
            value == decimal_value(digits.take(i - start)),
            value < integer_limit(),
        decreases end - i,
    {
        let digit: u128 = hex_digit(src[i]) as u128;
        proof {
            assert(digits.take(i + 1 - start).drop_last() =~= digits.take(i - start));
            assert(digits.take(i + 1 - start).last() == src@[i as int]);
            lemma_decimal_value_prefix(digits, i + 1 - start);
        }
        if value > (INTEGER_MAX - digit) / 10 {
            return None;
        }
        value = value * 10 + digit;
        i += 1;
    }
    proof {
        assert(digits.take(i - start) =~= digits);
    }
    Some(value)
}

/// Scans the number that starts at `start`.
pub(crate) fn scan_number(src: &[char], start: usize, errors: &mut Vec<Error>) -> (r: (
    Option<Token>,
    usize,
))
    requires
        opens_number(src@, start as int),
    ensures
        token_view(r.0) == number_at(src@, start as int).token,
        r.1 == number_at(src@, start as int).end,
        final(errors)@ == old(errors)@ + number_at(src@, start as int).errors,
        start < r.1 <= src.len(),
{
    if src[start] == '.' {
        let end = scan_digits(src, start + 1);
        (Some(Token::Literal(Literal::Float(text_of(src, start, end)))), end)
    } else {
        let d = scan_digits(src, start);
        proof {
            lemma_run_end(src@, start + 1, src@.len() as int, decimal_class());
        }
        if d < src.len() && src[d] == '.' && !(d + 1 < src.len() && src[d + 1] == '.') {
            let end = scan_digits(src, d + 1);
            (Some(Token::Literal(Literal::Float(text_of(src, start, end)))), end)
        } else {
            match decimal_of(src, start, d) {
                Some(value) => (Some(Token::Literal(Literal::Integer(value))), d),
                None => {
                    report(errors, ErrorKind::IntegerOverflow, start, d);
                    (None, d)
                },
            }
        }
    }
}

} // verus!
