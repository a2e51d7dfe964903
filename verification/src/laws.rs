//! What holds of the tokenizer on every text, proved from its definition.

use crate::chars::{
    digit_value, digits_value, is_decimal_digit, is_hex_digit, is_ident_continue, is_ident_start,
    is_scalar_value, is_space, lemma_char_is_scalar, lemma_run_end, lemma_run_end_is, REPLACEMENT,
};
use crate::ident::{ident_class, ident_end, keyword_of, word_token};
use crate::lexeme::Lexeme;
use crate::lexer::{
    begins_token, lemma_lexeme_at, lex, lex_from, lexeme_at, spanned, unexpected_at,
};
use crate::number::{
    decimal_class, decimal_value, digits_end, has_fraction, integer_limit, number_at,
};
use crate::span::{Error, ErrorKind, Span};
use crate::string::{
    escape_at, escape_errors, hex_class, hex_value, hex_width, is_quote, lemma_escape_at,
    lemma_string_body, string_body, Escape,
};
use crate::symbol::{closes_angles, is_right_shift, next_is};
use crate::text::decimal_text;
use crate::token::{Keyword, Operator, TokenView};
use crate::trivia::{
    at_token_start, block_comment_end, lemma_block_comment_end, lemma_line_comment_end,
    lemma_trivia_end, line_comment_end, opens_block_comment, opens_line_comment, trivia_end,
};
use vstd::prelude::*;

verus! {

/// A text that is one lexeme from its first character to its last gives
/// what that lexeme gives.
pub proof fn lemma_lex_one_lexeme(s: Seq<char>)
    requires
        at_token_start(s, 0),
        lexeme_at(s, 0).end == s.len(),
    ensures
        lex(s).tokens == spanned(lexeme_at(s, 0), 0),
        lex(s).errors == lexeme_at(s, 0).errors,
{
    let lexeme = lexeme_at(s, 0);
    let rest = lex_from(s, lexeme.end);
    assert(rest.tokens.len() == 0 && rest.errors.len() == 0);
    assert(spanned(lexeme, 0) + rest.tokens =~= spanned(lexeme, 0));
    assert(lexeme.errors + rest.errors =~= lexeme.errors);
}

/// A text of nothing but decimal digits is one number lexeme, which is no
/// float, and takes the whole text.
proof fn lemma_digits_alone(s: Seq<char>)
    requires
        s.len() > 0,
        forall|k: int| 0 <= k < s.len() ==> is_decimal_digit(#[trigger] s[k]),
    ensures
        at_token_start(s, 0),
        lexeme_at(s, 0) == number_at(s, 0),
        digits_end(s, 0) == s.len(),
        !has_fraction(s, s.len() as int),
        s.subrange(0, s.len() as int) == s,
{
    assert(is_decimal_digit(s[0]));
    lemma_run_end_is(s, 0, s.len() as int, s.len() as int, decimal_class());
    assert(s.subrange(0, s.len() as int) =~= s);
}

/// A text of decimal digits alone that write a number below two to the
/// power 127 is exactly one integer token with that value, over the whole
/// text, and raises no diagnostic.
pub proof fn law_integer_alone(s: Seq<char>)
    requires
        s.len() > 0,
        forall|k: int| 0 <= k < s.len() ==> is_decimal_digit(#[trigger] s[k]),
        decimal_value(s) < integer_limit(),
    ensures
        lex(s).tokens == seq![
            (TokenView::integer(decimal_value(s) as u128), Span::between(0, s.len() as int)),
        ],
        lex(s).errors == Seq::<Error>::empty(),
{
    lemma_digits_alone(s);
    lemma_lex_one_lexeme(s);
}

/// A text of decimal digits alone that write two to the power 127 or more
/// gives no token, and one overflow diagnostic over the whole text.
pub proof fn law_integer_overflow(s: Seq<char>)
    requires
        s.len() > 0,
        forall|k: int| 0 <= k < s.len() ==> is_decimal_digit(#[trigger] s[k]),
        decimal_value(s) >= integer_limit(),
    ensures
        lex(s).tokens == Seq::<(TokenView, Span)>::empty(),
        lex(s).errors == seq![Error::at(ErrorKind::IntegerOverflow, 0, s.len() as int)],
{
    lemma_digits_alone(s);
    lemma_lex_one_lexeme(s);
}

/// The body of a string literal that holds neither its quote nor a
/// backslash is read as it stands, up to the closing quote.
proof fn lemma_plain_body(text: Seq<char>, quote: char, i: int)
    requires
        1 <= i <= text.len() + 1,
        forall|k: int| 0 <= k < text.len() ==> text[k] != quote && text[k] != '\\',
    ensures
        string_body(seq![quote] + text + seq![quote], i, quote).text == text.subrange(
            i - 1,
            text.len() as int,
        ),
        string_body(seq![quote] + text + seq![quote], i, quote).errors == Seq::<Error>::empty(),
        string_body(seq![quote] + text + seq![quote], i, quote).end == text.len() + 2,
        string_body(seq![quote] + text + seq![quote], i, quote).closed,
    decreases text.len() + 1 - i,
{
    let s = seq![quote] + text + seq![quote];
    let n = text.len() as int;
    if i <= n {
        assert(s[i] == text[i - 1]);
        lemma_plain_body(text, quote, i + 1);
        assert(seq![s[i]] + text.subrange(i, n) =~= text.subrange(i - 1, n));
    } else {
        assert(s[i] == quote);
        assert(text.subrange(i - 1, n) =~= Seq::<char>::empty());
    }
}

/// A text without its quote and without backslashes, put between two
/// quotes of one kind, is exactly one string literal token with that text,
/// and raises no diagnostic.
pub proof fn law_plain_string(text: Seq<char>, quote: char)
    requires
        is_quote(quote),
        forall|k: int| 0 <= k < text.len() ==> text[k] != quote && text[k] != '\\',
    ensures
        lex(seq![quote] + text + seq![quote]).tokens == seq![
            (TokenView::string(text), Span::between(0, text.len() as int + 2)),
        ],
        lex(seq![quote] + text + seq![quote]).errors == Seq::<Error>::empty(),
{
    let s = seq![quote] + text + seq![quote];
    lemma_plain_body(text, quote, 1);
    assert(text.subrange(0, text.len() as int) =~= text);
    assert(s[0] == quote);
    lemma_lex_one_lexeme(s);
}

/// Where a token can start, the tokens from there on are the one that
/// starts there and then those behind it; the diagnostics likewise.
pub proof fn lemma_lex_step(s: Seq<char>, i: int)
    requires
        at_token_start(s, i),
    ensures
        lex_from(s, i).tokens == spanned(lexeme_at(s, i), i) + lex_from(
            s,
            lexeme_at(s, i).end,
        ).tokens,
        lex_from(s, i).errors == lexeme_at(s, i).errors + lex_from(s, lexeme_at(s, i).end).errors,
{
}

/// Each escape of one letter stands for its character: `\\`, `\"` and
/// `\'` for the second character itself, `\b` for backspace, `\f` for form
/// feed, `\n` for line feed, `\r` for carriage return, `\t` for tab.
pub proof fn law_simple_escapes(s: Seq<char>, i: int)
    requires
        0 <= i,
        i + 1 < s.len(),
    ensures
        s[i + 1] == '\\' || s[i + 1] == '"' || s[i + 1] == '\'' ==> escape_at(s, i) == (Escape {
            ch: s[i + 1],
            end: i + 2,
            valid: true,
        }),
        s[i + 1] == 'b' ==> escape_at(s, i) == (Escape { ch: '\x08', end: i + 2, valid: true }),
        s[i + 1] == 'f' ==> escape_at(s, i) == (Escape { ch: '\x0C', end: i + 2, valid: true }),
        s[i + 1] == 'n' ==> escape_at(s, i) == (Escape { ch: '\n', end: i + 2, valid: true }),
        s[i + 1] == 'r' ==> escape_at(s, i) == (Escape { ch: '\r', end: i + 2, valid: true }),
        s[i + 1] == 't' ==> escape_at(s, i) == (Escape { ch: '\t', end: i + 2, valid: true }),
{
}

/// An escape that has all its hexadecimal digits, which write the code
/// point of a character, stands for that character: `\x` with two digits,
/// `\u` with four, `\U` with eight.
pub proof fn law_hex_escape(s: Seq<char>, i: int)
    requires
        0 <= i,
        i + 1 < s.len(),
        hex_width(s[i + 1]) > 0,
        i + 2 + hex_width(s[i + 1]) <= s.len(),
        forall|k: int| i + 2 <= k < i + 2 + hex_width(s[i + 1]) ==> is_hex_digit(#[trigger] s[k]),
        is_scalar_value(hex_value(s.subrange(i + 2, i + 2 + hex_width(s[i + 1]))) as int),
    ensures
        escape_at(s, i) == (Escape {
            ch: hex_value(s.subrange(i + 2, i + 2 + hex_width(s[i + 1]))) as char,
            end: i + 2 + hex_width(s[i + 1]),
            valid: true,
        }),
{
    let end = i + 2 + hex_width(s[i + 1]);
    lemma_run_end_is(s, i + 2, end, end, hex_class());
}

/// `\x` with two hexadecimal digits is always well formed, and stands for
/// the character whose code point is sixteen times the first digit plus
/// the second.
pub proof fn law_byte_escape(s: Seq<char>, i: int)
    requires
        0 <= i,
        i + 3 < s.len(),
        s[i + 1] == 'x',
        is_hex_digit(s[i + 2]),
        is_hex_digit(s[i + 3]),
    ensures
        escape_at(s, i).valid,
        escape_at(s, i).end == i + 4,
        escape_at(s, i).ch as int == 16 * digit_value(s[i + 2])
            + digit_value(s[i + 3]),
{
    lemma_run_end_is(s, i + 2, i + 4, i + 4, hex_class());
    let digits = s.subrange(i + 2, i + 4);
    assert(digits.drop_last() =~= seq![s[i + 2]]);
    assert(digits.drop_last().drop_last() =~= Seq::<char>::empty());
    reveal_with_fuel(digits_value, 3);
    assert(hex_value(digits) == 16 * digit_value(s[i + 2])
        + digit_value(s[i + 3]));
}

/// A string literal that holds one well-formed escape sequence and nothing
/// else is the string of the one character that the sequence stands for.
pub proof fn law_escaped_string(s: Seq<char>)
    requires
        s.len() >= 3,
        is_quote(s[0]),
        s[1] == '\\',
        s.last() == s[0],
        escape_at(s, 1).valid,
        escape_at(s, 1).end == s.len() - 1,
    ensures
        lex(s).tokens == seq![
            (TokenView::string(seq![escape_at(s, 1).ch]), Span::between(0, s.len() as int)),
        ],
        lex(s).errors == Seq::<Error>::empty(),
{
    let escape = escape_at(s, 1);
    let rest = string_body(s, escape.end, s[0]);
    assert(rest.text.len() == 0 && rest.errors.len() == 0 && rest.closed);
    let body = string_body(s, 1, s[0]);
    assert(body.text =~= seq![escape.ch]);
    assert(body.errors =~= Seq::<Error>::empty());
    lemma_lex_one_lexeme(s);
}

/// An ill-formed escape sequence in a string literal gives the replacement
/// character and exactly one diagnostic, over the sequence; what follows
/// the sequence is read as if nothing had happened.
pub proof fn law_invalid_escape(s: Seq<char>, i: int, quote: char)
    requires
        0 <= i < s.len(),
        s[i] == '\\',
        quote != '\\',
        !escape_at(s, i).valid,
    ensures
        string_body(s, i, quote).text == seq![REPLACEMENT] + string_body(
            s,
            escape_at(s, i).end,
            quote,
        ).text,
        string_body(s, i, quote).errors == seq![
            Error::at(ErrorKind::InvalidUnicodeEscape, i, escape_at(s, i).end),
        ] + string_body(s, escape_at(s, i).end, quote).errors,
        string_body(s, i, quote).end == string_body(s, escape_at(s, i).end, quote).end,
        string_body(s, i, quote).closed == string_body(s, escape_at(s, i).end, quote).closed,
{
}

/// An escape is ill formed if its letter asks for hexadecimal digits and
/// none follows; it then takes in the backslash and the letter only.
pub proof fn law_escape_without_digits(s: Seq<char>, i: int)
    requires
        0 <= i,
        i + 1 < s.len(),
        hex_width(s[i + 1]) > 0,
        i + 2 == s.len() || !is_hex_digit(s[i + 2]),
    ensures
        escape_at(s, i) == Escape::invalid(i + 2),
{
}

/// Two `>` at the end of the text, or before one of `) < > ] } , ;`, are
/// two greater-than tokens of one character each, provided that the second
/// `>` does not open a right shift with a third.
pub proof fn law_closing_angles(s: Seq<char>, i: int)
    requires
        0 <= i,
        i + 1 < s.len(),
        s[i] == '>',
        s[i + 1] == '>',
        i + 2 == s.len() || closes_angles(s[i + 2]),
        !is_right_shift(s, i + 1),
    ensures
        lexeme_at(s, i) == Lexeme::clean(TokenView::Operator(Operator::Gt), i + 1),
        lexeme_at(s, i + 1) == Lexeme::clean(TokenView::Operator(Operator::Gt), i + 2),
        lex_from(s, i).tokens == seq![
            (TokenView::Operator(Operator::Gt), Span::between(i, i + 1)),
            (TokenView::Operator(Operator::Gt), Span::between(i + 1, i + 2)),
        ] + lex_from(s, i + 2).tokens,
        lex_from(s, i).errors == lex_from(s, i + 2).errors,
{
    lemma_lex_step(s, i);
    lemma_lex_step(s, i + 1);
    let gt = TokenView::Operator(Operator::Gt);
    let rest = lex_from(s, i + 2);
    assert(seq![(gt, Span::between(i, i + 1))] + (seq![(gt, Span::between(i + 1, i + 2))]
        + rest.tokens) =~= seq![(gt, Span::between(i, i + 1)), (gt, Span::between(i + 1, i + 2))]
        + rest.tokens);
    assert(Seq::<Error>::empty() + (Seq::<Error>::empty() + rest.errors) =~= rest.errors);
}

/// Two `>` before any character that is none of `) < > ] } , ;`, such as
/// a digit or a letter, are one right-shift token.
pub proof fn law_right_shift(s: Seq<char>, i: int)
    requires
        0 <= i,
        i + 2 < s.len(),
        s[i] == '>',
        s[i + 1] == '>',
        !closes_angles(s[i + 2]),
    ensures
        lexeme_at(s, i) == Lexeme::clean(TokenView::Operator(Operator::BitRShift), i + 2),
        lex_from(s, i).tokens == seq![
            (TokenView::Operator(Operator::BitRShift), Span::between(i, i + 2)),
        ] + lex_from(s, i + 2).tokens,
        lex_from(s, i).errors == lex_from(s, i + 2).errors,
{
    lemma_lex_step(s, i);
    assert(Seq::<Error>::empty() + lex_from(s, i + 2).errors =~= lex_from(s, i + 2).errors);
}

/// Digits before `..` are an integer, not a float, and the two points are
/// one range operator.
pub proof fn law_range_after_integer(s: Seq<char>, i: int)
    requires
        0 <= i < s.len(),
        is_decimal_digit(s[i]),
        next_is(s, digits_end(s, i) - 1, '.'),
        next_is(s, digits_end(s, i), '.'),
    ensures
        lexeme_at(s, i).end == digits_end(s, i),
        lexeme_at(s, i).token == if decimal_value(s.subrange(i, digits_end(s, i)))
            < integer_limit() {
            Some(TokenView::integer(decimal_value(s.subrange(i, digits_end(s, i))) as u128))
        } else {
            None
        },
        lexeme_at(s, digits_end(s, i)) == Lexeme::clean(
            TokenView::Operator(Operator::Range),
            digits_end(s, i) + 2,
        ),
{
    lemma_run_end(s, i, s.len() as int, decimal_class());
}

/// A character that is no whitespace and starts no token is taken alone as
/// an invalid token with one diagnostic, and the text behind it is scanned
/// as if it had started there.
pub proof fn law_unexpected_character(s: Seq<char>, i: int)
    requires
        0 <= i < s.len(),
        !is_space(s[i]),
        !begins_token(s[i]),
    ensures
        lexeme_at(s, i) == unexpected_at(s, i),
        lex_from(s, i).tokens == seq![(TokenView::Invalid(s[i]), Span::between(i, i + 1))]
            + lex_from(s, i + 1).tokens,
        lex_from(s, i).errors == seq![Error::at(ErrorKind::UnexpectedToken(s[i]), i, i + 1)]
            + lex_from(s, i + 1).errors,
{
    lemma_lex_step(s, i);
    lemma_char_is_scalar(s[i]);
}

/// A colon that no second colon follows is taken as an invalid token.
pub proof fn law_lone_colon(s: Seq<char>, i: int)
    requires
        0 <= i < s.len(),
        s[i] == ':',
        !next_is(s, i, ':'),
    ensures
        lexeme_at(s, i) == unexpected_at(s, i),
{
}

/// A text of one character that is no whitespace and starts no token is
/// one invalid token and one diagnostic.
pub proof fn law_unexpected_alone(c: char)
    requires
        !is_space(c),
        !begins_token(c),
    ensures
        lex(seq![c]).tokens == seq![(TokenView::Invalid(c), Span::between(0, 1))],
        lex(seq![c]).errors == seq![Error::at(ErrorKind::UnexpectedToken(c), 0, 1)],
{
    lemma_lex_one_lexeme(seq![c]);
}

/// Whether the spans of `tokens` lie in the text from `from` on, each over
/// at least one character and starting where a token can start, and in the
/// order of the text without overlap.
pub open spec fn well_spaced(s: Seq<char>, tokens: Seq<(TokenView, Span)>, from: int) -> bool {
    &&& forall|k: int|
        0 <= k < tokens.len() ==> from <= (#[trigger] tokens[k]).1.start < tokens[k].1.end
            <= s.len() && at_token_start(s, tokens[k].1.start as int)
    &&& forall|j: int, k: int|
        0 <= j < k < tokens.len() ==> (#[trigger] tokens[j]).1.end <= (#[trigger] tokens[k]).1.start
}

proof fn lemma_well_spaced(s: Seq<char>, i: int)
    requires
        0 <= i <= s.len() <= usize::MAX,
    ensures
        well_spaced(s, lex_from(s, i).tokens, i),
    decreases s.len() - i,
{
    lemma_trivia_end(s, i);
    let start = trivia_end(s, i);
    if start < s.len() {
        let lexeme = lexeme_at(s, start);
        lemma_lexeme_at(s, start);
        lemma_well_spaced(s, lexeme.end);
        let first = spanned(lexeme, start);
        let rest = lex_from(s, lexeme.end).tokens;
        let tokens = lex_from(s, i).tokens;
        assert(tokens == first + rest);
        assert forall|k: int| 0 <= k < tokens.len() implies i <= (#[trigger] tokens[k]).1.start
            < tokens[k].1.end <= s.len() && at_token_start(s, tokens[k].1.start as int) by {
            if k >= first.len() {
                assert(tokens[k] == rest[k - first.len()]);
            }
        }
        assert forall|j: int, k: int| 0 <= j < k < tokens.len() implies (#[trigger] tokens[j]).1.end
            <= (#[trigger] tokens[k]).1.start by {
            assert(tokens[k] == rest[k - first.len()]);
            if j >= first.len() {
                assert(tokens[j] == rest[j - first.len()]);
            }
        }
    }
}

/// Whitespace and comments leave no trace among the tokens: every token
/// starts at a character that is neither whitespace nor the opening of a
/// comment, takes at least one character inside the text, and ends before
/// the next token starts.
pub proof fn law_tokens_apart(s: Seq<char>)
    requires
        s.len() <= usize::MAX,
    ensures
        well_spaced(s, lex(s).tokens, 0),
{
    lemma_well_spaced(s, 0);
}

/// The length of a word and its first two characters. Together with the
/// third character of `while` and `where`, they tell the keywords apart.
spec fn shape(word: Seq<char>) -> (nat, char, char) {
    (word.len(), word[0], word[1])
}

/// The words of the keywords: lower-case letters, at least two, and each
/// is the word of no other keyword.
pub proof fn lemma_keyword_text(keyword: Keyword)
    ensures
        keyword.text().len() >= 2,
        forall|k: int| 0 <= k < keyword.text().len() ==> 'a' <= #[trigger] keyword.text()[k] <= 'z',
        keyword_of(keyword.text()) == Some(keyword),
{
    reveal_strlit("func");
    reveal_strlit("class");
    reveal_strlit("require");
    reveal_strlit("export");
    reveal_strlit("let");
    reveal_strlit("const");
    reveal_strlit("mut");
    reveal_strlit("private");
    reveal_strlit("if");
    reveal_strlit("else");
    reveal_strlit("match");
    reveal_strlit("for");
    reveal_strlit("in");
    reveal_strlit("while");
    reveal_strlit("break");
    reveal_strlit("continue");
    reveal_strlit("return");
    reveal_strlit("with");
    reveal_strlit("throws");
    reveal_strlit("where");
    assert(shape(Keyword::Func.text()) == (4nat, 'f', 'u'));
    assert(shape(Keyword::Class.text()) == (5nat, 'c', 'l'));
    assert(shape(Keyword::Require.text()) == (7nat, 'r', 'e'));
    assert(shape(Keyword::Export.text()) == (6nat, 'e', 'x'));
    assert(shape(Keyword::Let.text()) == (3nat, 'l', 'e'));
    assert(shape(Keyword::Const.text()) == (5nat, 'c', 'o'));
    assert(shape(Keyword::Mut.text()) == (3nat, 'm', 'u'));
    assert(shape(Keyword::Private.text()) == (7nat, 'p', 'r'));
    assert(shape(Keyword::If.text()) == (2nat, 'i', 'f'));
    assert(shape(Keyword::Else.text()) == (4nat, 'e', 'l'));
    assert(shape(Keyword::Match.text()) == (5nat, 'm', 'a'));
    assert(shape(Keyword::For.text()) == (3nat, 'f', 'o'));
    assert(shape(Keyword::In.text()) == (2nat, 'i', 'n'));
    assert(shape(Keyword::While.text()) == (5nat, 'w', 'h'));
    assert(shape(Keyword::Break.text()) == (5nat, 'b', 'r'));
    assert(shape(Keyword::Continue.text()) == (8nat, 'c', 'o'));
    assert(shape(Keyword::Return.text()) == (6nat, 'r', 'e'));
    assert(shape(Keyword::With.text()) == (4nat, 'w', 'i'));
    assert(shape(Keyword::Throws.text()) == (6nat, 't', 'h'));
    assert(shape(Keyword::Where.text()) == (5nat, 'w', 'h'));
    assert(Keyword::While.text()[2] == 'i' && Keyword::Where.text()[2] == 'e');
}

/// The word of a keyword, alone, is exactly the token of that keyword and
/// never an identifier.
pub proof fn law_keyword_alone(keyword: Keyword)
    ensures
        lex(keyword.text()).tokens == seq![
            (TokenView::Keyword(keyword), Span::between(0, keyword.text().len() as int)),
        ],
        lex(keyword.text()).errors == Seq::<Error>::empty(),
{
    let s = keyword.text();
    lemma_keyword_text(keyword);
    assert('a' <= s[0] <= 'z');
    lemma_run_end_is(s, 1, s.len() as int, s.len() as int, ident_class());
    assert(s.subrange(0, s.len() as int) =~= s);
    assert(ident_end(s, 1) == s.len());
    lemma_lex_one_lexeme(s);
}

/// Whitespace and comments give neither tokens nor diagnostics: the scan
/// from a position is the scan from where the whitespace and comments that
/// start there end.
pub proof fn law_trivia_is_skipped(s: Seq<char>, i: int)
    requires
        0 <= i <= s.len(),
    ensures
        lex_from(s, i) == lex_from(s, trivia_end(s, i)),
        i < s.len() && is_space(s[i]) ==> lex_from(s, i) == lex_from(s, i + 1),
        opens_line_comment(s, i) ==> lex_from(s, i) == lex_from(s, line_comment_end(s, i + 2)),
        opens_block_comment(s, i) ==> lex_from(s, i) == lex_from(s, block_comment_end(s, i + 2)),
{
    lemma_trivia_end(s, i);
    if i < s.len() {
        lemma_trivia_end(s, i + 1);
    }
    if opens_line_comment(s, i) {
        lemma_line_comment_end(s, i + 2);
        lemma_trivia_end(s, line_comment_end(s, i + 2));
    }
    if opens_block_comment(s, i) {
        lemma_block_comment_end(s, i + 2);
        lemma_trivia_end(s, block_comment_end(s, i + 2));
    }
}

/// A text of nothing but whitespace and comments has no tokens and no
/// diagnostics.
pub proof fn law_trivia_alone(s: Seq<char>)
    requires
        trivia_end(s, 0) == s.len(),
    ensures
        lex(s).tokens == Seq::<(TokenView, Span)>::empty(),
        lex(s).errors == Seq::<Error>::empty(),
{
}

/// Whether every diagnostic in `errors` lies in the text from `from` on,
/// over at least one character.
pub open spec fn diagnostics_inside(s: Seq<char>, errors: Seq<Error>, from: int) -> bool {
    forall|k: int|
        0 <= k < errors.len() ==> from <= (#[trigger] errors[k]).span.start < errors[k].span.end
            <= s.len()
}

proof fn lemma_body_diagnostics(s: Seq<char>, i: int, quote: char)
    requires
        0 <= i <= s.len() <= usize::MAX,
    ensures
        diagnostics_inside(s, string_body(s, i, quote).errors, i),
    decreases s.len() - i,
{
    if i < s.len() && s[i] != quote {
        if s[i] == '\\' {
            let escape = escape_at(s, i);
            lemma_escape_at(s, i);
            lemma_body_diagnostics(s, escape.end, quote);
            let first = escape_errors(escape, i);
            let rest = string_body(s, escape.end, quote).errors;
            let errors = string_body(s, i, quote).errors;
            assert(errors == first + rest);
            assert forall|k: int| 0 <= k < errors.len() implies i <= (
            #[trigger] errors[k]).span.start < errors[k].span.end <= s.len() by {
                if k >= first.len() {
                    assert(errors[k] == rest[k - first.len()]);
                }
            }
        } else {
            lemma_body_diagnostics(s, i + 1, quote);
        }
    }
}

proof fn lemma_lexeme_diagnostics(s: Seq<char>, i: int)
    requires
        0 <= i < s.len() <= usize::MAX,
    ensures
        diagnostics_inside(s, lexeme_at(s, i).errors, i),
{
    lemma_lexeme_at(s, i);
    lemma_char_is_scalar(s[i]);
    if is_quote(s[i]) {
        lemma_body_diagnostics(s, i + 1, s[i]);
        lemma_string_body(s, i + 1, s[i]);
        let body = string_body(s, i + 1, s[i]);
        let errors = lexeme_at(s, i).errors;
        assert forall|k: int| 0 <= k < errors.len() implies i <= (#[trigger] errors[k]).span.start
            < errors[k].span.end <= s.len() by {
            if k < body.errors.len() {
                assert(errors[k] == body.errors[k]);
            }
        }
    }
}

proof fn lemma_diagnostics_inside(s: Seq<char>, i: int)
    requires
        0 <= i <= s.len() <= usize::MAX,
    ensures
        diagnostics_inside(s, lex_from(s, i).errors, i),
    decreases s.len() - i,
{
    lemma_trivia_end(s, i);
    let start = trivia_end(s, i);
    if start < s.len() {
        let lexeme = lexeme_at(s, start);
        lemma_lexeme_at(s, start);
        lemma_lexeme_diagnostics(s, start);
        lemma_diagnostics_inside(s, lexeme.end);
        let rest = lex_from(s, lexeme.end).errors;
        let errors = lex_from(s, i).errors;
        assert(errors == lexeme.errors + rest);
        assert forall|k: int| 0 <= k < errors.len() implies i <= (#[trigger] errors[k]).span.start
            < errors[k].span.end <= s.len() by {
            if k >= lexeme.errors.len() {
                assert(errors[k] == rest[k - lexeme.errors.len()]);
            } else {
                assert(errors[k] == lexeme.errors[k]);
            }
        }
    }
}

/// Every diagnostic points into the text, at one character or more.
pub proof fn law_diagnostics_inside(s: Seq<char>)
    requires
        s.len() <= usize::MAX,
    ensures
        diagnostics_inside(s, lex(s).errors, 0),
{
    lemma_diagnostics_inside(s, 0);
}

/// A word alone, that is a letter or an underscore and then letters, digits
/// and underscores, is exactly one token: its keyword if it is the word of
/// one, else the identifier of that name.
pub proof fn law_word_alone(s: Seq<char>)
    requires
        s.len() > 0,
        is_ident_start(s[0]),
        forall|k: int| 0 <= k < s.len() ==> is_ident_continue(#[trigger] s[k]),
    ensures
        lex(s).tokens == seq![(word_token(s), Span::between(0, s.len() as int))],
        lex(s).errors == Seq::<Error>::empty(),
        keyword_of(s) is None ==> word_token(s) == TokenView::Identifier(s),
{
    lemma_run_end_is(s, 1, s.len() as int, s.len() as int, ident_class());
    assert(s.subrange(0, s.len() as int) =~= s);
    assert(ident_end(s, 1) == s.len());
    lemma_lex_one_lexeme(s);
}

/// Digits, a point and further digits, of which there may be none, are
/// exactly one float token that keeps the text as it is written.
pub proof fn law_float_alone(whole: Seq<char>, fraction: Seq<char>)
    requires
        whole.len() > 0,
        forall|k: int| 0 <= k < whole.len() ==> is_decimal_digit(#[trigger] whole[k]),
        forall|k: int| 0 <= k < fraction.len() ==> is_decimal_digit(#[trigger] fraction[k]),
    ensures
        lex(whole + seq!['.'] + fraction).tokens == seq![
            (
                TokenView::float(whole + seq!['.'] + fraction),
                Span::between(0, (whole.len() + 1 + fraction.len()) as int),
            ),
        ],
        lex(whole + seq!['.'] + fraction).errors == Seq::<Error>::empty(),
{
    let s = whole + seq!['.'] + fraction;
    let n = whole.len() as int;
    assert(s[0] == whole[0]);
    assert forall|k: int| 0 <= k < n implies decimal_class()(#[trigger] s[k]) by {
        assert(s[k] == whole[k]);
    }
    assert(s[n] == '.');
    lemma_run_end_is(s, 0, n, s.len() as int, decimal_class());
    assert forall|k: int| n + 1 <= k < s.len() implies decimal_class()(#[trigger] s[k]) by {
        assert(s[k] == fraction[k - n - 1]);
    }
    lemma_run_end_is(s, n + 1, s.len() as int, s.len() as int, decimal_class());
    assert(s.subrange(0, s.len() as int) =~= s);
    lemma_lex_one_lexeme(s);
}

/// A point and digits behind it are exactly one float token.
pub proof fn law_fraction_alone(fraction: Seq<char>)
    requires
        fraction.len() > 0,
        forall|k: int| 0 <= k < fraction.len() ==> is_decimal_digit(#[trigger] fraction[k]),
    ensures
        lex(seq!['.'] + fraction).tokens == seq![
            (TokenView::float(seq!['.'] + fraction), Span::between(0, (1 + fraction.len()) as int)),
        ],
        lex(seq!['.'] + fraction).errors == Seq::<Error>::empty(),
{
    let s = seq!['.'] + fraction;
    assert(s[0] == '.');
    assert(s[1] == fraction[0]);
    assert forall|k: int| 1 <= k < s.len() implies decimal_class()(#[trigger] s[k]) by {
        assert(s[k] == fraction[k - 1]);
    }
    lemma_run_end_is(s, 1, s.len() as int, s.len() as int, decimal_class());
    assert(s.subrange(0, s.len() as int) =~= s);
    lemma_lex_one_lexeme(s);
}

/// The decimal digits of a number are digits, and write that number.
pub proof fn lemma_decimal_text(n: nat)
    ensures
        decimal_text(n).len() > 0,
        forall|k: int| 0 <= k < decimal_text(n).len() ==> is_decimal_digit(
            #[trigger] decimal_text(n)[k],
        ),
        decimal_value(decimal_text(n)) == n,
    decreases n,
{
    if n < 10 {
        assert(decimal_text(n).drop_last() =~= Seq::<char>::empty());
        reveal_with_fuel(digits_value, 2);
    } else {
        lemma_decimal_text(n / 10);
        assert(decimal_text(n).drop_last() =~= decimal_text(n / 10));
    }
}

/// An integer below two to the power 127, written in decimal digits, is
/// read back as the token of that integer.
pub proof fn law_written_integer(n: nat)
    requires
        n < integer_limit(),
    ensures
        lex(decimal_text(n)).tokens == seq![
            (TokenView::integer(n as u128), Span::between(0, decimal_text(n).len() as int)),
        ],
        lex(decimal_text(n)).errors == Seq::<Error>::empty(),
{
    lemma_decimal_text(n);
    law_integer_alone(decimal_text(n));
}

/// Where a symbol of two characters stands, it is taken whole, never as
/// two symbols of one character: `::`, `..`, `**`, `==`, `!=`, `<=`, `>=`,
/// `<<`, `||` and `&&`.
pub proof fn law_longer_symbol_wins(s: Seq<char>, i: int)
    requires
        0 <= i,
        i + 1 < s.len(),
    ensures
        s[i] == ':' && s[i + 1] == ':' ==> lexeme_at(s, i) == Lexeme::clean(TokenView::Cast, i + 2),
        s[i] == '.' && s[i + 1] == '.' ==> lexeme_at(s, i) == Lexeme::clean(TokenView::Operator(Operator::Range), i + 2),
        s[i] == '*' && s[i + 1] == '*' ==> lexeme_at(s, i) == Lexeme::clean(TokenView::Operator(Operator::Pow), i + 2),
        s[i] == '=' && s[i + 1] == '=' ==> lexeme_at(s, i) == Lexeme::clean(TokenView::Operator(Operator::Eq), i + 2),
        s[i] == '!' && s[i + 1] == '=' ==> lexeme_at(s, i) == Lexeme::clean(TokenView::Operator(Operator::Ne), i + 2),
        s[i] == '<' && s[i + 1] == '=' ==> lexeme_at(s, i) == Lexeme::clean(TokenView::Operator(Operator::Le), i + 2),
        s[i] == '>' && s[i + 1] == '=' ==> lexeme_at(s, i) == Lexeme::clean(TokenView::Operator(Operator::Ge), i + 2),
        s[i] == '<' && s[i + 1] == '<' ==> lexeme_at(s, i) == Lexeme::clean(TokenView::Operator(Operator::BitLShift), i + 2),
        s[i] == '|' && s[i + 1] == '|' ==> lexeme_at(s, i) == Lexeme::clean(TokenView::Operator(Operator::Or), i + 2),
        s[i] == '&' && s[i + 1] == '&' ==> lexeme_at(s, i) == Lexeme::clean(TokenView::Operator(Operator::And), i + 2),
{
}

/// A `=` that no second `=` follows is an assignment, a `!` that no `=`
/// follows is a negation, and a point that neither a point nor a digit
/// follows is a dot.
pub proof fn law_single_symbols(s: Seq<char>, i: int)
    requires
        0 <= i < s.len(),
    ensures
        s[i] == '=' && !next_is(s, i, '=') ==> lexeme_at(s, i) == Lexeme::clean(
            TokenView::Assign,
            i + 1,
        ),
        s[i] == '!' && !next_is(s, i, '=') ==> lexeme_at(s, i) == Lexeme::clean(
            TokenView::Operator(Operator::Not),
            i + 1,
        ),
        s[i] == '.' && !next_is(s, i, '.') && !(i + 1 < s.len() && is_decimal_digit(s[i + 1]))
            ==> lexeme_at(s, i) == Lexeme::clean(TokenView::Dot, i + 1),
{
}

/// A word or a number reaches as far as it can: no character that could
/// go on it stands behind it.
pub proof fn law_longest_match(s: Seq<char>, i: int)
    requires
        0 <= i < s.len(),
    ensures
        is_ident_start(s[i]) ==> lexeme_at(s, i).end == s.len() || !is_ident_continue(
            s[lexeme_at(s, i).end],
        ),
        is_decimal_digit(s[i]) ==> lexeme_at(s, i).end == s.len() || !is_decimal_digit(
            s[lexeme_at(s, i).end],
        ),
{
    lemma_run_end(s, i + 1, s.len() as int, ident_class());
    lemma_run_end(s, i, s.len() as int, decimal_class());
    let d = digits_end(s, i);
    if is_decimal_digit(s[i]) && d < s.len() {
        lemma_run_end(s, d + 1, s.len() as int, decimal_class());
    }
}

} // verus!
