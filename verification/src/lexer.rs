//! The tokenizer: from source text to tokens and diagnostics.

use crate::chars::{
    char_at, is_decimal, is_decimal_digit, is_ident_start, lemma_run_end, run_end, starts_ident,
    to_chars,
};
use crate::ident::{ident_class, scan_word, word_at};
use crate::lexeme::{report, stream_view, token_view, Lexeme};
use crate::number::{decimal_class, number_at, opens_number, scan_number};
use crate::span::{Error, ErrorKind, Span};
use crate::string::{is_quote, lemma_string_body, scan_string, string_at};
use crate::symbol::{bracket_of, is_symbol_start, scan_bracket, scan_symbol, symbol_at};
use crate::token::{Token, TokenView};
use crate::trivia::{skip_trivia, trivia_end};
use vstd::prelude::*;

verus! {

/// What the tokenizer makes of a text: the tokens with their spans, in the
/// order of the text, and the diagnostics, in the order they were raised.
pub struct Lexed {
    pub tokens: Seq<(TokenView, Span)>,
    pub errors: Seq<Error>,
}

/// A character at `i` that starts no token: it becomes an invalid token of
/// its own, with one diagnostic.
pub open spec fn unexpected_at(s: Seq<char>, i: int) -> Lexeme {
    Lexeme {
        token: Some(TokenView::Invalid(s[i])),
        errors: seq![Error::at(ErrorKind::UnexpectedToken(s[i]), i, i + 1)],
        end: i + 1,
    }
}

/// The characters that some recogniser knows as the start of a token.
pub open spec fn begins_token(c: char) -> bool {
    is_quote(c) || is_decimal_digit(c) || is_symbol_start(c) || bracket_of(c) is Some
        || is_ident_start(c)
}

/// What starts at position `i`, where a token can start.
///
/// The recognisers are asked in this order: string literal, number,
/// punctuation or operator, bracket, word. If none of them knows the
/// character at `i`, it is taken alone as an invalid token.
pub open spec fn lexeme_at(s: Seq<char>, i: int) -> Lexeme {
    if is_quote(s[i]) {
        string_at(s, i)
    } else if opens_number(s, i) {
        number_at(s, i)
    } else {
        match symbol_at(s, i) {
            Some((token, width)) => Lexeme::clean(token, i + width),
            None => match bracket_of(s[i]) {
                Some(token) => Lexeme::clean(token, i + 1),
                None => if is_ident_start(s[i]) {
                    word_at(s, i)
                } else {
                    unexpected_at(s, i)
                },
            },
        }
    }
}

/// Every lexeme takes at least one character and stays inside the text.
pub proof fn lemma_lexeme_at(s: Seq<char>, i: int)
    requires
        0 <= i < s.len(),
    ensures
        i < lexeme_at(s, i).end <= s.len(),
{
    lemma_string_body(s, i + 1, s[i]);
    lemma_run_end(s, i + 1, s.len() as int, decimal_class());
    lemma_run_end(s, i + 1, s.len() as int, ident_class());
    if opens_number(s, i) && s[i] != '.' {
        let d = run_end(s, i + 1, s.len() as int, decimal_class());
        if d < s.len() {
            lemma_run_end(s, d + 1, s.len() as int, decimal_class());
        }
    }
}

/// The tokens and diagnostics of the text from position `i` on.
///
/// Whitespace and comments are passed over; then one lexeme is taken, and
/// so on until the end of the text. A lexeme without a token leaves only
/// its diagnostics behind.
pub open spec fn lex_from(s: Seq<char>, i: int) -> Lexed
    decreases s.len() - i,
{
    let start = trivia_end(s, i);
    if !(0 <= i <= start < s.len()) {
        Lexed { tokens: Seq::empty(), errors: Seq::empty() }
    } else {
        let lexeme = lexeme_at(s, start);
        proof {
            lemma_lexeme_at(s, start);
        }
        let rest = lex_from(s, lexeme.end);
        Lexed {
            tokens: spanned(lexeme, start) + rest.tokens,
            errors: lexeme.errors + rest.errors,
        }
    }
}

/// The token of a lexeme that started at `start`, with its span; nothing
/// if the lexeme has no token.
pub open spec fn spanned(lexeme: Lexeme, start: int) -> Seq<(TokenView, Span)> {
    match lexeme.token {
        Some(token) => seq![(token, Span::between(start, lexeme.end))],
        None => Seq::empty(),
    }
}

/// The tokens and diagnostics of a whole text.
pub open spec fn lex(s: Seq<char>) -> Lexed {
    lex_from(s, 0)
}

/// Scans what starts at `start`: the token, if there is one, and the
/// position behind it. Diagnostics are added to `errors`.
pub(crate) fn scan_lexeme(src: &[char], start: usize, errors: &mut Vec<Error>) -> (r: (
    Option<Token>,
    usize,
))
    requires
        start < src.len(),
    ensures
        token_view(r.0) == lexeme_at(src@, start as int).token,
        r.1 == lexeme_at(src@, start as int).end,
        final(errors)@ == old(errors)@ + lexeme_at(src@, start as int).errors,
        start < r.1 <= src.len(),
{
    let c = char_at(src, start);
    if c == '"' || c == '\'' {
        return scan_string(src, start, errors);
    }
    if is_decimal(c) || (c == '.' && start + 1 < src.len() && is_decimal(src[start + 1])) {
        return scan_number(src, start, errors);
    }
    proof {
        assert(errors@ + Seq::<Error>::empty() =~= errors@);
    }
    match scan_symbol(src, start) {
        Some((token, width)) => {
            return (Some(token), start + width);
        },
        None => {},
    }
    match scan_bracket(c) {
        Some(token) => {
            return (Some(token), start + 1);
        },
        None => {},
    }
    if starts_ident(c) {
        let (token, end) = scan_word(src, start);
        return (Some(token), end);
    }
    let ghost before = errors@;
    report(errors, ErrorKind::UnexpectedToken(c), start, start + 1);
    proof {
        assert(errors@ =~= before + unexpected_at(src@, start as int).errors);
    }
    (Some(Token::Invalid(c)), start + 1)
}

/// Splits a text, given as its characters, into tokens.
///
/// The scan never stops early: it hands back every token it could make,
/// and beside them every diagnostic.
pub fn tokenize(src: &[char]) -> (r: (Vec<(Token, Span)>, Vec<Error>))
    ensures
        stream_view(r.0@) == lex(src@).tokens,
        r.1@ == lex(src@).errors,
{
    let mut tokens: Vec<(Token, Span)> = Vec::new();
    let mut errors: Vec<Error> = Vec::new();
    let mut pos: usize = 0;
    proof {
        assert(stream_view(tokens@) + lex(src@).tokens =~= lex(src@).tokens);
        assert(errors@ + lex(src@).errors =~= lex(src@).errors);
    }
    loop
        invariant
            pos <= src.len(),
            lex(src@).tokens == stream_view(tokens@) + lex_from(src@, pos as int).tokens,
            lex(src@).errors == errors@ + lex_from(src@, pos as int).errors,
        decreases src.len() - pos,
    {
        let start = skip_trivia(src, pos);
        if start >= src.len() {
            proof {
                assert(stream_view(tokens@) + lex_from(src@, pos as int).tokens =~= stream_view(
                    tokens@,
                ));
                assert(errors@ + lex_from(src@, pos as int).errors =~= errors@);
            }
            return (tokens, errors);
        }
        let ghost lexeme = lexeme_at(src@, start as int);
        let ghost rest = lex_from(src@, lexeme.end);
        let ghost tokens_before = tokens@;
        let ghost errors_before = errors@;
        let (token, end) = scan_lexeme(src, start, &mut errors);
        match token {
            Some(t) => {
                tokens.push((t, Span::new(start, end)));
            },
            None => {},
        }
        proof {
            assert(stream_view(tokens@) =~= stream_view(tokens_before) + spanned(
                lexeme,
                start as int,
            ));
            assert(stream_view(tokens@) + rest.tokens =~= stream_view(tokens_before) + (spanned(
                lexeme,
                start as int,
            ) + rest.tokens));
            assert(errors@ + rest.errors =~= errors_before + (lexeme.errors + rest.errors));
        }
        pos = end;
    }
}

/// The tokenizer. It holds no state: each call scans one text from its
/// start.
#[derive(Copy, Clone, Debug)]
pub struct Lexer {}

/// The tokenizer of the language: on every text it gives the tokens and
/// diagnostics that `lex` defines.
#[must_use]
pub fn get_lexer() -> (lexer: Lexer)
    ensures
        forall|s: Seq<char>| #[trigger] lexer.lexed(s) == lex(s),
{
    Lexer {  }
}

impl Lexer {
    /// What this tokenizer makes of a text.
    pub open spec fn lexed(self, s: Seq<char>) -> Lexed {
        lex(s)
    }

    /// Splits `source` into tokens. Succeeds with the tokens if no
    /// diagnostic was raised, and fails with all diagnostics otherwise.
    pub fn parse(&self, source: &str) -> (r: Result<Vec<(Token, Span)>, Vec<Error>>)
        ensures
            match r {
                Ok(tokens) => self.lexed(source@).errors.len() == 0 && stream_view(tokens@)
                    == self.lexed(source@).tokens,
                Err(errors) => errors@.len() > 0 && errors@ == self.lexed(source@).errors,
            },
    {
        let (tokens, errors) = self.parse_recovery(source);
        if errors.len() == 0 {
            Ok(tokens)
        } else {
            Err(errors)
        }
    }

    /// Splits `source` into tokens, and hands back all tokens that could be
    /// made together with all diagnostics.
    pub fn parse_recovery(&self, source: &str) -> (r: (Vec<(Token, Span)>, Vec<Error>))
        ensures
            stream_view(r.0@) == self.lexed(source@).tokens,
            r.1@ == self.lexed(source@).errors,
    {
        let chars = to_chars(source);
        tokenize(chars.as_slice())
    }
}

} // verus!
