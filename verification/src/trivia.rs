//! What stands between tokens: whitespace, line comments and block comments.

use crate::chars::{is_line_end, is_newline, is_space, is_whitespace};
use vstd::prelude::*;

verus! {

/// Whether `//` stands at position `i`.
pub open spec fn opens_line_comment(s: Seq<char>, i: int) -> bool {
    0 <= i && i + 1 < s.len() && s[i] == '/' && s[i + 1] == '/'
}

/// Whether `/*` stands at position `i`.
pub open spec fn opens_block_comment(s: Seq<char>, i: int) -> bool {
    0 <= i && i + 1 < s.len() && s[i] == '/' && s[i + 1] == '*'
}

/// Where a line comment whose body starts at `i` ends: behind the first
/// character that ends a line, or at the end of the text.
pub open spec fn line_comment_end(s: Seq<char>, i: int) -> int
    decreases s.len() - i,
{
    if !(0 <= i < s.len()) {
        i
    } else if is_line_end(s[i]) {
        i + 1
    } else {
        line_comment_end(s, i + 1)
    }
}

/// Where a block comment whose body starts at `i` ends: behind the first
/// `*/`, or at the end of the text if there is none. Comments do not nest.
pub open spec fn block_comment_end(s: Seq<char>, i: int) -> int
    decreases s.len() - i,
{
    if !(0 <= i < s.len()) {
        i
    } else if i + 1 < s.len() && s[i] == '*' && s[i + 1] == '/' {
        i + 2
    } else {
        block_comment_end(s, i + 1)
    }
}

pub proof fn lemma_line_comment_end(s: Seq<char>, i: int)
    requires
        0 <= i <= s.len(),
    ensures
        i <= line_comment_end(s, i) <= s.len(),
    decreases s.len() - i,
{
    if i < s.len() && !is_line_end(s[i]) {
        lemma_line_comment_end(s, i + 1);
    }
}

pub proof fn lemma_block_comment_end(s: Seq<char>, i: int)
    requires
        0 <= i <= s.len(),
    ensures
        i <= block_comment_end(s, i) <= s.len(),
    decreases s.len() - i,
{
    if i < s.len() && !(i + 1 < s.len() && s[i] == '*' && s[i + 1] == '/') {
        lemma_block_comment_end(s, i + 1);
    }
}

/// The first position from `i` on where a token can start: behind any
/// mixture of whitespace and comments. It is the end of the text when
/// nothing but these is left.
pub open spec fn trivia_end(s: Seq<char>, i: int) -> int
    decreases s.len() - i,
{
    if !(0 <= i < s.len()) {
        i
    } else if is_space(s[i]) {
        trivia_end(s, i + 1)
    } else if opens_line_comment(s, i) {
        proof {
            lemma_line_comment_end(s, i + 2);
        }
        trivia_end(s, line_comment_end(s, i + 2))
    } else if opens_block_comment(s, i) {
        proof {
            lemma_block_comment_end(s, i + 2);
        }
        trivia_end(s, block_comment_end(s, i + 2))
    } else {
        i
    }
}

/// Whether a token can start at `i`: a character stands there that is
/// neither whitespace nor the opening of a comment.
pub open spec fn at_token_start(s: Seq<char>, i: int) -> bool {
    0 <= i < s.len() && !is_space(s[i]) && !opens_line_comment(s, i) && !opens_block_comment(s, i)
}

pub proof fn lemma_trivia_end(s: Seq<char>, i: int)
    requires
        0 <= i <= s.len(),
    ensures
        i <= trivia_end(s, i) <= s.len(),
        trivia_end(s, i) < s.len() ==> at_token_start(s, trivia_end(s, i)),
        trivia_end(s, trivia_end(s, i)) == trivia_end(s, i),
    decreases s.len() - i,
{
    if i < s.len() {
        if is_space(s[i]) {
            lemma_trivia_end(s, i + 1);
        } else if opens_line_comment(s, i) {
            lemma_line_comment_end(s, i + 2);
            lemma_trivia_end(s, line_comment_end(s, i + 2));
        } else if opens_block_comment(s, i) {
            lemma_block_comment_end(s, i + 2);
            lemma_trivia_end(s, block_comment_end(s, i + 2));
        }
    }
}

fn skip_line_comment(src: &[char], start: usize) -> (end: usize)
    requires
        start <= src.len(),
    ensures
        end == line_comment_end(src@, start as int),
        start <= end <= src.len(),
{
    let mut i: usize = start;
    while i < src.len() && !is_newline(src[i])
        invariant
            start <= i <= src.len(),
            line_comment_end(src@, start as int) == line_comment_end(src@, i as int),
        decreases src.len() - i,
    {
        i += 1;
    }
    if i < src.len() {
        i + 1
    } else {
        i
    }
}

fn skip_block_comment(src: &[char], start: usize) -> (end: usize)
    requires
        start <= src.len(),
    ensures
        end == block_comment_end(src@, start as int),
        start <= end <= src.len(),
{
    let mut i: usize = start;
    while i < src.len() && !(src[i] == '*' && i + 1 < src.len() && src[i + 1] == '/')
        invariant
            start <= i <= src.len(),
            block_comment_end(src@, start as int) == block_comment_end(src@, i as int),
        decreases src.len() - i,
    {
        i += 1;
    }
    if i < src.len() {
        i + 2
    } else {
        i
    }
}

/// Skips whitespace and comments from `start` on.
pub(crate) fn skip_trivia(src: &[char], start: usize) -> (end: usize)
    requires
        start <= src.len(),
    ensures
        end == trivia_end(src@, start as int),
        start <= end <= src.len(),
{
    let mut i: usize = start;
    loop
        invariant
            start <= i <= src.len(),
            trivia_end(src@, start as int) == trivia_end(src@, i as int),
        ensures
            start <= i <= src.len(),
            i == trivia_end(src@, start as int),
        decreases src.len() - i,
    {
        if i >= src.len() {
            break ;
        }
        let c = src[i];
        if is_whitespace(c) {
            i += 1;
        } else if c == '/' && i + 1 < src.len() && src[i + 1] == '/' {
            let next = skip_line_comment(src, i + 2);
            i = next;
        } else if c == '/' && i + 1 < src.len() && src[i + 1] == '*' {
            let next = skip_block_comment(src, i + 2);
            i = next;
        } else {
            break ;
        }
    }
    i
}

} // verus!
