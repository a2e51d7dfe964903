//! String literals and their escape sequences.

use crate::chars::{
    digits_value, hex_digit, is_hex, is_hex_digit, is_scalar_value, lemma_run_end,
    run_end, REPLACEMENT,
};
use crate::lexeme::{report, token_view, Lexeme};
use crate::span::{Error, ErrorKind};
use crate::token::{Literal, StringLiteral, Token, TokenView};
use vstd::prelude::*;

verus! {

/// What an escape sequence stands for: the character, the position behind
/// the sequence, and whether the sequence was well formed. An ill-formed
/// sequence stands for `REPLACEMENT`.
pub struct Escape {
    pub ch: char,
    pub end: int,
    pub valid: bool,
}

impl Escape {
    pub open spec fn invalid(end: int) -> Escape {
        Escape { ch: REPLACEMENT, end, valid: false }
    }
}

/// The escapes of one letter: the character that `\` and `c` stand for.
pub open spec fn simple_escape(c: char) -> Option<char> {
    if c == '\\' || c == '"' || c == '\'' {
        Some(c)
    } else if c == 'b' {
        Some('\x08')
    } else if c == 'f' {
        Some('\x0C')
    } else if c == 'n' {
        Some('\n')
    } else if c == 'r' {
        Some('\r')
    } else if c == 't' {
        Some('\t')
    } else {
        None
    }
}

/// The number of hexadecimal digits that the escape letter `c` asks for, or
/// 0 if `c` opens no such escape.
pub open spec fn hex_width(c: char) -> int {
    if c == 'x' {
        2
    } else if c == 'u' {
        4
    } else if c == 'U' {
        8
    } else {
        0
    }
}

/// The class of the hexadecimal digits.
pub open spec fn hex_class() -> spec_fn(char) -> bool {
    |c: char| is_hex_digit(c)
}

/// The number that a sequence of hexadecimal digits writes.
pub open spec fn hex_value(digits: Seq<char>) -> nat {
    digits_value(digits, 16)
}

/// The escape with `width` hexadecimal digits whose backslash stands at `i`.
///
/// It takes in the digits that are there, up to `width` of them. It is well
/// formed if all `width` are there and write the code point of a character.
pub open spec fn hex_escape(s: Seq<char>, i: int, width: int) -> Escape {
    let end = run_end(s, i + 2, i + 2 + width, hex_class());
    let value = hex_value(s.subrange(i + 2, end));
    if end == i + 2 + width && is_scalar_value(value as int) {
        Escape { ch: value as char, end, valid: true }
    } else {
        Escape::invalid(end)
    }
}

/// The escape sequence whose backslash stands at `i`.
///
/// A backslash with nothing behind it, and one with a letter that opens no
/// escape, are ill formed; the letter belongs to the sequence.
pub open spec fn escape_at(s: Seq<char>, i: int) -> Escape {
    if i + 1 >= s.len() {
        Escape::invalid(i + 1)
    } else {
        match simple_escape(s[i + 1]) {
            Some(ch) => Escape { ch, end: i + 2, valid: true },
            None => if hex_width(s[i + 1]) > 0 {
                hex_escape(s, i, hex_width(s[i + 1]))
            } else {
                Escape::invalid(i + 2)
            },
        }
    }
}

pub proof fn lemma_escape_at(s: Seq<char>, i: int)
    requires
        0 <= i < s.len(),
    ensures
        i < escape_at(s, i).end <= s.len(),
{
    if i + 1 < s.len() {
        lemma_run_end(s, i + 2, i + 2 + hex_width(s[i + 1]), hex_class());
    }
}

/// The body of a string literal from `i` on.
pub struct Body {
    /// The decoded text.
    pub text: Seq<char>,
    /// One diagnostic for each ill-formed escape, in order.
    pub errors: Seq<Error>,
    /// The position behind the closing quote, or the end of the text.
    pub end: int,
    /// Whether the closing quote was found.
    pub closed: bool,
}

/// Reads the body of a string literal from `i` on, up to the first
/// unescaped `quote`.
///
/// Characters stand for themselves, except that a backslash opens an escape
/// sequence. An ill-formed sequence gives `REPLACEMENT` and one diagnostic
/// over the sequence, and reading goes on behind it.
pub open spec fn string_body(s: Seq<char>, i: int, quote: char) -> Body
    decreases s.len() - i,
{
    if !(0 <= i < s.len()) {
        Body { text: Seq::empty(), errors: Seq::empty(), end: i, closed: false }
    } else if s[i] == quote {
        Body { text: Seq::empty(), errors: Seq::empty(), end: i + 1, closed: true }
    } else if s[i] == '\\' {
        let escape = escape_at(s, i);
        proof {
            lemma_escape_at(s, i);
        }
        let rest = string_body(s, escape.end, quote);
        Body {
            text: seq![escape.ch] + rest.text,
            errors: escape_errors(escape, i) + rest.errors,
            end: rest.end,
            closed: rest.closed,
        }
    } else {
        let rest = string_body(s, i + 1, quote);
        Body {
            text: seq![s[i]] + rest.text,
            errors: rest.errors,
            end: rest.end,
            closed: rest.closed,
        }
    }
}

/// The diagnostics of one escape sequence whose backslash stands at `i`.
pub open spec fn escape_errors(escape: Escape, i: int) -> Seq<Error> {
    if escape.valid {
        Seq::empty()
    } else {
        seq![Error::at(ErrorKind::InvalidUnicodeEscape, i, escape.end)]
    }
}

pub open spec fn is_quote(c: char) -> bool {
    c == '"' || c == '\''
}

/// The string literal whose opening quote stands at `i`.
///
/// It ends at the next unescaped quote of the same kind. If there is none,
/// the literal gives no token and, behind the diagnostics of its escapes,
/// one more diagnostic that reaches to the end of the text.
pub open spec fn string_at(s: Seq<char>, i: int) -> Lexeme {
    let body = string_body(s, i + 1, s[i]);
    if body.closed {
        Lexeme { token: Some(TokenView::string(body.text)), errors: body.errors, end: body.end }
    } else {
        Lexeme {
            token: None,
            errors: body.errors.push(Error::at(ErrorKind::UnterminatedString, i, body.end)),
            end: body.end,
        }
    }
}

pub proof fn lemma_string_body(s: Seq<char>, i: int, quote: char)
    requires
        0 <= i <= s.len(),
    ensures
        i <= string_body(s, i, quote).end <= s.len(),
        !string_body(s, i, quote).closed ==> string_body(s, i, quote).end == s.len(),
        string_body(s, i, quote).closed ==> i < string_body(s, i, quote).end,
    decreases s.len() - i,
{
    if i < s.len() && s[i] != quote {
        if s[i] == '\\' {
            lemma_escape_at(s, i);
            lemma_string_body(s, escape_at(s, i).end, quote);
        } else {
            lemma_string_body(s, i + 1, quote);
        }
    }
}

/// Sixteen to the power `n`.
pub open spec fn pow16(n: nat) -> nat
    decreases n,
{
    if n == 0 {
        1
    } else {
        16 * pow16((n - 1) as nat)
    }
}

proof fn lemma_pow16_bound(n: nat)
    requires
        n <= 8,
    ensures
        pow16(n) <= 0x1_0000_0000,
{
    reveal_with_fuel(pow16, 9);
}

/// Reads up to `width` hexadecimal digits from `start` on: their value, and
/// the position behind them.
fn scan_hex(src: &[char], start: usize, width: usize) -> (r: (u32, usize))
    requires
        start <= src.len(),
        width <= 8,
    ensures
        r.1 == run_end(src@, start as int, start + width, hex_class()),
        r.0 == hex_value(src@.subrange(start as int, r.1 as int)),
        start <= r.1 <= src.len(),
        r.1 <= start + width,
{
    let mut value: u64 = 0;
    let mut i: usize = start;
    while i < src.len() && i - start < width && is_hex(src[i])
        invariant
            start <= i <= src.len(),
            i <= start + width,
            width <= 8,
            run_end(src@, start as int, start + width, hex_class()) == run_end(
                src@,
                i as int,
                start + width,
                hex_class(),
            ),
            value == hex_value(src@.subrange(start as int, i as int)),
            value < pow16((i - start) as nat),
        decreases src.len() - i,
    {
        let digit: u64 = hex_digit(src[i]) as u64;
        proof {
            lemma_pow16_bound((i - start) as nat);
            lemma_pow16_bound((i + 1 - start) as nat);
            assert(src@.subrange(start as int, i + 1).drop_last() =~= src@.subrange(
                start as int,
                i as int,
            ));
        }
        value = value * 16 + digit;
        i += 1;
    }
    proof {
        lemma_pow16_bound((i - start) as nat);
    }
    (value as u32, i)
}

/// Decodes the escape sequence whose backslash stands at `start`: the
/// character, the position behind the sequence, and whether it was well
/// formed.
pub(crate) fn scan_escape(src: &[char], start: usize) -> (r: (char, usize, bool))
    requires
        start < src.len(),
    ensures
        r.0 == escape_at(src@, start as int).ch,
        r.1 == escape_at(src@, start as int).end,
        r.2 == escape_at(src@, start as int).valid,
        start < r.1 <= src.len(),
{
    if start + 1 >= src.len() {
        return (REPLACEMENT, start + 1, false);
    }
    let c = src[start + 1];
    if c == '\\' || c == '"' || c == '\'' {
        (c, start + 2, true)
    } else if c == 'b' {
        ('\x08', start + 2, true)
    } else if c == 'f' {
        ('\x0C', start + 2, true)
    } else if c == 'n' {
        ('\n', start + 2, true)
    } else if c == 'r' {
        ('\r', start + 2, true)
    } else if c == 't' {
        ('\t', start + 2, true)
    } else if c == 'x' || c == 'u' || c == 'U' {
        let width: usize = if c == 'x' {
            2
        } else if c == 'u' {
            4
        } else {
            8
        };
        let (value, end) = scan_hex(src, start + 2, width);
        if end - (start + 2) == width {
            match char::from_u32(value) {
                Some(ch) => (ch, end, true),
                None => (REPLACEMENT, end, false),
            }
        } else {
            (REPLACEMENT, end, false)
        }
    } else {
        (REPLACEMENT, start + 2, false)
    }
}

/// Scans the string literal whose opening quote stands at `start`.
pub(crate) fn scan_string(src: &[char], start: usize, errors: &mut Vec<Error>) -> (r: (
    Option<Token>,
    usize,
))
    requires
        start < src.len(),
        is_quote(src@[start as int]),
    ensures
        token_view(r.0) == string_at(src@, start as int).token,
        r.1 == string_at(src@, start as int).end,
        final(errors)@ == old(errors)@ + string_at(src@, start as int).errors,
        start < r.1 <= src.len(),
{
    let quote = src[start];
    let ghost whole = string_body(src@, start + 1, quote);
    let ghost before = errors@;
    let mut text = String::new();
    let mut i: usize = start + 1;
    loop
        invariant
            start < i <= src.len(),
            quote == src@[start as int],
            before == old(errors)@,
            whole == string_body(src@, start + 1, quote),
            whole.text == text@ + string_body(src@, i as int, quote).text,
            before + whole.errors == errors@ + string_body(src@, i as int, quote).errors,
            whole.end == string_body(src@, i as int, quote).end,
            whole.closed == string_body(src@, i as int, quote).closed,
        decreases src.len() - i,
    {
        if i >= src.len() {
            report(errors, ErrorKind::UnterminatedString, start, i);
            proof {
                assert(before + whole.errors.push(
                    Error::at(ErrorKind::UnterminatedString, start as int, i as int),
                ) =~= errors@);
            }
            return (None, i);
        }
        let c = src[i];
        if c == quote {
            proof {
                assert(whole.text =~= text@);
                assert(before + whole.errors =~= errors@);
            }
            return (Some(Token::Literal(Literal::String(StringLiteral::String(text)))), i + 1);
        }
        let ghost rest = string_body(src@, i as int, quote);
        if c == '\\' {
            let (ch, end, valid) = scan_escape(src, i);
            let ghost after = string_body(src@, end as int, quote);
            let ghost errors_before = errors@;
            if !valid {
                report(errors, ErrorKind::InvalidUnicodeEscape, i, end);
            }
            proof {
                assert(text@.push(ch) + after.text =~= text@ + rest.text);
                assert(errors@ + after.errors =~= errors_before + rest.errors);
            }
            text.push(ch);
            i = end;
        } else {
            proof {
                let after = string_body(src@, i + 1, quote);
                assert(text@.push(c) + after.text =~= text@ + rest.text);
            }
            text.push(c);
            i += 1;
        }
    }
}

} // verus!
