//! Identifiers and keywords.

use crate::chars::{continues_ident, is_ident_continue, is_ident_start, run_end, text_of};
use crate::lexeme::Lexeme;
use crate::token::{Keyword, Token, TokenView};
use vstd::prelude::*;

verus! {

/// The class of the characters that go on an identifier.
pub open spec fn ident_class() -> spec_fn(char) -> bool {
    |c: char| is_ident_continue(c)
}

/// Where the run of identifier characters that starts at `i` ends.
pub open spec fn ident_end(s: Seq<char>, i: int) -> int {
    run_end(s, i, s.len() as int, ident_class())
}

/// The keyword that is written exactly as `text`, if there is one.
pub open spec fn keyword_of(text: Seq<char>) -> Option<Keyword> {
    if text == Keyword::Func.text() {
        Some(Keyword::Func)
    } else if text == Keyword::Class.text() {
        Some(Keyword::Class)
    } else if text == Keyword::Require.text() {
        Some(Keyword::Require)
    } else if text == Keyword::Export.text() {
        Some(Keyword::Export)
    } else if text == Keyword::Let.text() {
        Some(Keyword::Let)
    } else if text == Keyword::Const.text() {
        Some(Keyword::Const)
    } else if text == Keyword::Mut.text() {
        Some(Keyword::Mut)
    } else if text == Keyword::Private.text() {
        Some(Keyword::Private)
    } else if text == Keyword::If.text() {
        Some(Keyword::If)
    } else if text == Keyword::Else.text() {
        Some(Keyword::Else)
    } else if text == Keyword::Match.text() {
        Some(Keyword::Match)
    } else if text == Keyword::For.text() {
        Some(Keyword::For)
    } else if text == Keyword::In.text() {
        Some(Keyword::In)
    } else if text == Keyword::While.text() {
        Some(Keyword::While)
    } else if text == Keyword::Break.text() {
        Some(Keyword::Break)
    } else if text == Keyword::Continue.text() {
        Some(Keyword::Continue)
    } else if text == Keyword::Return.text() {
        Some(Keyword::Return)
    } else if text == Keyword::With.text() {
        Some(Keyword::With)
    } else if text == Keyword::Throws.text() {
        Some(Keyword::Throws)
    } else if text == Keyword::Where.text() {
        Some(Keyword::Where)
    } else {
        None
    }
}

/// The token of a word: its keyword if it is one, else an identifier.
pub open spec fn word_token(text: Seq<char>) -> TokenView {
    match keyword_of(text) {
        Some(keyword) => TokenView::Keyword(keyword),
        None => TokenView::Identifier(text),
    }
}

/// The word that starts at `i`: the longest run of identifier characters.
pub open spec fn word_at(s: Seq<char>, i: int) -> Lexeme {
    let end = ident_end(s, i + 1);
    Lexeme::clean(word_token(s.subrange(i, end)), end)
}

/// Whether the characters at `[start, end)` spell `word`.
fn spells(src: &[char], start: usize, end: usize, word: &str) -> (r: bool)
    requires
        start <= end <= src.len(),
    ensures
        r == (src@.subrange(start as int, end as int) == word@),
{
    let n: usize = word.unicode_len();
    if end - start != n {
        return false;
    }
    let mut k: usize = 0;
    while k < n
        invariant
            start <= end <= src.len(),
            n == end - start,
            n == word@.len(),
            k <= n,
            forall|j: int| 0 <= j < k ==> src@[start + j] == word@[j],
        decreases n - k,
    {
        if src[start + k] != word.get_char(k) {
            proof {
                assert(src@.subrange(start as int, end as int)[k as int] != word@[k as int]);
            }
            return false;
        }
        k += 1;
    }
    proof {
        assert(src@.subrange(start as int, end as int) =~= word@);
    }
    true
}

/// Looks the word at `[start, end)` up among the keywords.
fn find_keyword(src: &[char], start: usize, end: usize) -> (r: Option<Keyword>)
    requires
        start <= end <= src.len(),
    ensures
        r == keyword_of(src@.subrange(start as int, end as int)),
{
    if spells(src, start, end, Keyword::Func.as_str()) {
        Some(Keyword::Func)
    } else if spells(src, start, end, Keyword::Class.as_str()) {
        Some(Keyword::Class)
    } else if spells(src, start, end, Keyword::Require.as_str()) {
        Some(Keyword::Require)
    } else if spells(src, start, end, Keyword::Export.as_str()) {
        Some(Keyword::Export)
    } else if spells(src, start, end, Keyword::Let.as_str()) {
        Some(Keyword::Let)
    } else if spells(src, start, end, Keyword::Const.as_str()) {
        Some(Keyword::Const)
    } else if spells(src, start, end, Keyword::Mut.as_str()) {
        Some(Keyword::Mut)
    } else if spells(src, start, end, Keyword::Private.as_str()) {
        Some(Keyword::Private)
    } else if spells(src, start, end, Keyword::If.as_str()) {
        Some(Keyword::If)
    } else if spells(src, start, end, Keyword::Else.as_str()) {
        Some(Keyword::Else)
    } else if spells(src, start, end, Keyword::Match.as_str()) {
        Some(Keyword::Match)
    } else if spells(src, start, end, Keyword::For.as_str()) {
        Some(Keyword::For)
    } else if spells(src, start, end, Keyword::In.as_str()) {
        Some(Keyword::In)
    } else if spells(src, start, end, Keyword::While.as_str()) {
        Some(Keyword::While)
    } else if spells(src, start, end, Keyword::Break.as_str()) {
        Some(Keyword::Break)
    } else if spells(src, start, end, Keyword::Continue.as_str()) {
        Some(Keyword::Continue)
    } else if spells(src, start, end, Keyword::Return.as_str()) {
        Some(Keyword::Return)
    } else if spells(src, start, end, Keyword::With.as_str()) {
        Some(Keyword::With)
    } else if spells(src, start, end, Keyword::Throws.as_str()) {
        Some(Keyword::Throws)
    } else if spells(src, start, end, Keyword::Where.as_str()) {
        Some(Keyword::Where)
    } else {
        None
    }
}

/// Scans the word that starts at `start`.
pub(crate) fn scan_word(src: &[char], start: usize) -> (r: (Token, usize))
    requires
        start < src.len(),
        is_ident_start(src@[start as int]),
    ensures
        Some(r.0@) == word_at(src@, start as int).token,
        r.1 == word_at(src@, start as int).end,
        start < r.1 <= src.len(),
{
    let mut end: usize = start + 1;
    while end < src.len() && continues_ident(src[end])
        invariant
            start < end <= src.len(),
            ident_end(src@, start + 1) == ident_end(src@, end as int),
        decreases src.len() - end,
    {
        end += 1;
    }
    match find_keyword(src, start, end) {
        Some(keyword) => (Token::Keyword(keyword), end),
        None => (Token::Identifier(text_of(src, start, end)), end),
    }
}

} // verus!
