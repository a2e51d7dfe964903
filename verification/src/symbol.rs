//! Punctuation, operators and brackets.

use crate::lexeme::token_view;
use crate::token::{Bracket, Operator, Token, TokenView};
use vstd::prelude::*;

verus! {

/// Whether the character `c` stands right behind position `i`.
pub open spec fn next_is(s: Seq<char>, i: int, c: char) -> bool {
    i + 1 < s.len() && s[i + 1] == c
}

/// The characters behind which `>>` closes two angle brackets rather than
/// shifting.
pub open spec fn closes_angles(c: char) -> bool {
    c == ')' || c == '<' || c == '>' || c == ']' || c == '}' || c == ',' || c == ';'
}

/// Whether the `>` at `i` opens a right shift: a second `>` follows, and
/// behind it a character that is none of `) < > ] } , ;`. At the end of the
/// text `>>` is no shift.
pub open spec fn is_right_shift(s: Seq<char>, i: int) -> bool {
    next_is(s, i, '>') && i + 2 < s.len() && !closes_angles(s[i + 2])
}

pub open spec fn operator(op: Operator, width: int) -> Option<(TokenView, int)> {
    Some((TokenView::Operator(op), width))
}

/// The punctuation or operator that starts at `i`, with the number of
/// characters it takes, or `None` if none starts there. Where two symbols
/// start with the same character, the longer one wins.
pub open spec fn symbol_at(s: Seq<char>, i: int) -> Option<(TokenView, int)> {
    let c = s[i];
    if c == ',' {
        Some((TokenView::Comma, 1))
    } else if c == ';' {
        Some((TokenView::Semicolon, 1))
    } else if c == '?' {
        Some((TokenView::Question, 1))
    } else if c == ':' {
        if next_is(s, i, ':') {
            Some((TokenView::Cast, 2))
        } else {
            None
        }
    } else if c == '.' {
        if next_is(s, i, '.') {
            operator(Operator::Range, 2)
        } else {
            Some((TokenView::Dot, 1))
        }
    } else if c == '+' {
        operator(Operator::Add, 1)
    } else if c == '-' {
        operator(Operator::Sub, 1)
    } else if c == '*' {
        if next_is(s, i, '*') {
            operator(Operator::Pow, 2)
        } else {
            operator(Operator::Mul, 1)
        }
    } else if c == '/' {
        operator(Operator::Div, 1)
    } else if c == '%' {
        operator(Operator::Mod, 1)
    } else if c == '=' {
        if next_is(s, i, '=') {
            operator(Operator::Eq, 2)
        } else {
            Some((TokenView::Assign, 1))
        }
    } else if c == '!' {
        if next_is(s, i, '=') {
            operator(Operator::Ne, 2)
        } else {
            operator(Operator::Not, 1)
        }
    } else if c == '<' {
        if next_is(s, i, '=') {
            operator(Operator::Le, 2)
        } else if next_is(s, i, '<') {
            operator(Operator::BitLShift, 2)
        } else {
            operator(Operator::Lt, 1)
        }
    } else if c == '>' {
        if next_is(s, i, '=') {
            operator(Operator::Ge, 2)
        } else if is_right_shift(s, i) {
            operator(Operator::BitRShift, 2)
        } else {
            operator(Operator::Gt, 1)
        }
    } else if c == '|' {
        if next_is(s, i, '|') {
            operator(Operator::Or, 2)
        } else {
            operator(Operator::BitOr, 1)
        }
    } else if c == '&' {
        if next_is(s, i, '&') {
            operator(Operator::And, 2)
        } else {
            operator(Operator::BitAnd, 1)
        }
    } else if c == '^' {
        operator(Operator::BitXor, 1)
    } else if c == '~' {
        operator(Operator::BitNot, 1)
    } else {
        None
    }
}

/// The characters with which punctuation and operators start.
pub open spec fn is_symbol_start(c: char) -> bool {
    c == ',' || c == ';' || c == '?' || c == ':' || c == '.' || c == '+' || c == '-' || c == '*'
        || c == '/' || c == '%' || c == '=' || c == '!' || c == '<' || c == '>' || c == '|' || c
        == '&' || c == '^' || c == '~'
}

/// The bracket token that the character `c` is, if it is one.
pub open spec fn bracket_of(c: char) -> Option<TokenView> {
    if c == '(' {
        Some(TokenView::StartBracket(Bracket::Paren))
    } else if c == '[' {
        Some(TokenView::StartBracket(Bracket::Bracket))
    } else if c == '{' {
        Some(TokenView::StartBracket(Bracket::Brace))
    } else if c == ')' {
        Some(TokenView::EndBracket(Bracket::Paren))
    } else if c == ']' {
        Some(TokenView::EndBracket(Bracket::Bracket))
    } else if c == '}' {
        Some(TokenView::EndBracket(Bracket::Brace))
    } else {
        None
    }
}

/// What `scan_symbol` and `scan_bracket` hand back, as mathematics sees it.
pub open spec fn symbol_view(r: Option<(Token, usize)>) -> Option<(TokenView, int)> {
    match r {
        Some((token, width)) => Some((token@, width as int)),
        None => None,
    }
}

fn followed_by(src: &[char], start: usize, c: char) -> (r: bool)
    requires
        start < src.len(),
    ensures
        r == next_is(src@, start as int, c),
{
    start + 1 < src.len() && src[start + 1] == c
}

fn closes(c: char) -> (r: bool)
    ensures
        r == closes_angles(c),
{
    c == ')' || c == '<' || c == '>' || c == ']' || c == '}' || c == ',' || c == ';'
}

fn one(op: Operator) -> (r: Option<(Token, usize)>)
    ensures
        symbol_view(r) == operator(op, 1),
{
    Some((Token::Operator(op), 1))
}

fn two(op: Operator) -> (r: Option<(Token, usize)>)
    ensures
        symbol_view(r) == operator(op, 2),
{
    Some((Token::Operator(op), 2))
}

/// Scans the punctuation or operator at `start`: the token and the number
/// of characters it takes.
pub(crate) fn scan_symbol(src: &[char], start: usize) -> (r: Option<(Token, usize)>)
    requires
        start < src.len(),
    ensures
        symbol_view(r) == symbol_at(src@, start as int),
        r matches Some((_, width)) ==> 1 <= width && start + width <= src.len(),
{
    let c = src[start];
    if c == ',' {
        Some((Token::Comma, 1))
    } else if c == ';' {
        Some((Token::Semicolon, 1))
    } else if c == '?' {
        Some((Token::Question, 1))
    } else if c == ':' {
        if followed_by(src, start, ':') {
            Some((Token::Cast, 2))
        } else {
            None
        }
    } else if c == '.' {
        if followed_by(src, start, '.') {
            two(Operator::Range)
        } else {
            Some((Token::Dot, 1))
        }
    } else if c == '+' {
        one(Operator::Add)
    } else if c == '-' {
        one(Operator::Sub)
    } else if c == '*' {
        if followed_by(src, start, '*') {
            two(Operator::Pow)
        } else {
            one(Operator::Mul)
        }
    } else if c == '/' {
        one(Operator::Div)
    } else if c == '%' {
        one(Operator::Mod)
    } else if c == '=' {
        if followed_by(src, start, '=') {
            two(Operator::Eq)
        } else {
            Some((Token::Assign, 1))
        }
    } else if c == '!' {
        if followed_by(src, start, '=') {
            two(Operator::Ne)
        } else {
            one(Operator::Not)
        }
    } else if c == '<' {
        if followed_by(src, start, '=') {
            two(Operator::Le)
        } else if followed_by(src, start, '<') {
            two(Operator::BitLShift)
        } else {
            one(Operator::Lt)
        }
    } else if c == '>' {
        if followed_by(src, start, '=') {
            two(Operator::Ge)
        } else if followed_by(src, start, '>') && start + 2 < src.len() && !closes(
            src[start + 2],
        ) {
            two(Operator::BitRShift)
        } else {
            one(Operator::Gt)
        }
    } else if c == '|' {
        if followed_by(src, start, '|') {
            two(Operator::Or)
        } else {
            one(Operator::BitOr)
        }
    } else if c == '&' {
        if followed_by(src, start, '&') {
            two(Operator::And)
        } else {
            one(Operator::BitAnd)
        }
    } else if c == '^' {
        one(Operator::BitXor)
    } else if c == '~' {
        one(Operator::BitNot)
    } else {
        None
    }
}

/// The bracket token that `c` is, if it is one.
pub(crate) fn scan_bracket(c: char) -> (r: Option<Token>)
    ensures
        token_view(r) == bracket_of(c),
{
    if c == '(' {
        Some(Token::StartBracket(Bracket::Paren))
    } else if c == '[' {
        Some(Token::StartBracket(Bracket::Bracket))
    } else if c == '{' {
        Some(Token::StartBracket(Bracket::Brace))
    } else if c == ')' {
        Some(Token::EndBracket(Bracket::Paren))
    } else if c == ']' {
        Some(Token::EndBracket(Bracket::Bracket))
    } else if c == '}' {
        Some(Token::EndBracket(Bracket::Brace))
    } else {
        None
    }
}

} // verus!
