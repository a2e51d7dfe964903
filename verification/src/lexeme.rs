//! What the scanner recognises at one position of the text.

use crate::span::{Error, ErrorKind, Span};
use crate::token::{Token, TokenView};
use vstd::prelude::*;

verus! {

/// One step of the scan: the token found, if any, the diagnostics raised on
/// the way, and the position behind the characters that were used up.
pub struct Lexeme {
    pub token: Option<TokenView>,
    pub errors: Seq<Error>,
    pub end: int,
}

impl Lexeme {
    /// A token recognised without complaint.
    pub open spec fn clean(token: TokenView, end: int) -> Lexeme {
        Lexeme { token: Some(token), errors: Seq::empty(), end }
    }
}

/// The view of a token that may be absent.
pub open spec fn token_view(token: Option<Token>) -> Option<TokenView> {
    match token {
        Some(t) => Some(t@),
        None => None,
    }
}

/// The view of a token stream: each token by its view, with its span.
pub open spec fn stream_view(tokens: Seq<(Token, Span)>) -> Seq<(TokenView, Span)> {
    Seq::new(tokens.len(), |k: int| (tokens[k].0@, tokens[k].1))
}

/// Records a diagnostic for the positions `[start, end)`.
pub(crate) fn report(errors: &mut Vec<Error>, kind: ErrorKind, start: usize, end: usize)
    ensures
        final(errors)@ == old(errors)@.push(Error::at(kind, start as int, end as int)),
{
    errors.push(Error::new(kind, Span::new(start, end)));
}

} // verus!
