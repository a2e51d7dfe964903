//! The tokens of the language and their mathematical views.

use vstd::prelude::*;

verus! {

#[derive(Copy, Clone, Debug, PartialEq, Eq, Hash, Structural)]
pub enum Operator {
    // Arithmetic
    Add,
    Sub,
    Mul,
    Div,
    Mod,
    Pow,
    // Logical
    Eq,
    Ne,
    Lt,
    Le,
    Gt,
    Ge,
    Or,
    And,
    Not,
    // Bitwise
    BitOr,
    BitXor,
    BitAnd,
    BitNot,
    BitLShift,
    BitRShift,
    // Programmatic
    Range,
}

impl Operator {
    /// The operators that may stand in front of a single operand.
    pub open spec fn is_unary(self) -> bool {
        self is Add || self is Sub || self is Not || self is BitNot
    }

    /// The operators that may stand between two operands: all but `~`.
    pub open spec fn is_binary(self) -> bool {
        !(self is BitNot)
    }

    #[must_use]
    pub fn supports_unary(&self) -> (r: bool)
        ensures
            r == self.is_unary(),
    {
        matches!(self, Self::Add | Self::Sub | Self::Not | Self::BitNot)
    }

    #[must_use]
    pub fn supports_binary(&self) -> (r: bool)
        ensures
            r == self.is_binary(),
    {
        matches!(
            self,
            Self::Add
                | Self::Sub
                | Self::Mul
                | Self::Div
                | Self::Mod
                | Self::Pow
                | Self::Eq
                | Self::Ne
                | Self::Lt
                | Self::Le
                | Self::Gt
                | Self::Ge
                | Self::Or
                | Self::And
                | Self::Not
                | Self::BitOr
                | Self::BitXor
                | Self::BitAnd
                | Self::BitLShift
                | Self::BitRShift
                | Self::Range
        )
    }
}

#[derive(Clone, Debug, PartialEq, Eq, Hash)]
pub enum StringLiteral {
    String(String),
    ByteString(String),
    RawString(String),
    InterpolatedString(String),
}

/// A string literal as mathematics sees it: the kind, and the decoded text.
pub enum StringLiteralView {
    String(Seq<char>),
    ByteString(Seq<char>),
    RawString(Seq<char>),
    InterpolatedString(Seq<char>),
}

impl View for StringLiteral {
    type V = StringLiteralView;

    open spec fn view(&self) -> StringLiteralView {
        match self {
            StringLiteral::String(s) => StringLiteralView::String(s@),
            StringLiteral::ByteString(s) => StringLiteralView::ByteString(s@),
            StringLiteral::RawString(s) => StringLiteralView::RawString(s@),
            StringLiteral::InterpolatedString(s) => StringLiteralView::InterpolatedString(s@),
        }
    }
}

#[derive(Clone, Debug, PartialEq, Eq, Hash)]
pub enum Literal {
    String(StringLiteral),
    /// Unsigned, since a leading minus is a token of its own.
    Integer(u128),
    /// Kept as written, so that no precision is lost and literals compare by text.
    Float(String),
}

pub enum LiteralView {
    String(StringLiteralView),
    Integer(u128),
    Float(Seq<char>),
}

impl View for Literal {
    type V = LiteralView;

    open spec fn view(&self) -> LiteralView {
        match self {
            Literal::String(s) => LiteralView::String(s@),
            Literal::Integer(i) => LiteralView::Integer(*i),
            Literal::Float(f) => LiteralView::Float(f@),
        }
    }
}

#[derive(Copy, Clone, Debug, PartialEq, Eq, Hash, Structural)]
pub enum Keyword {
    Func,
    Class,
    // Modules
    Require,
    Export,
    // Variables
    Let,
    Const,
    Mut,
    // Attributes
    Private,
    // Control flow
    If,
    Else,
    Match,
    For,
    In,
    While,
    Break,
    Continue,
    Return,
    With,
    Throws,
    Where,
}

impl Keyword {
    /// The keywords that are reserved only in some contexts.
    pub open spec fn soft(self) -> bool {
        self is Require || self is Export || self is Private || self is Match || self is Throws
            || self is Where
    }

    /// The word that the keyword is written as.
    pub open spec fn text(self) -> Seq<char> {
        match self {
            Keyword::Func => "func"@,
            Keyword::Class => "class"@,
            Keyword::Require => "require"@,
            Keyword::Export => "export"@,
            Keyword::Let => "let"@,
            Keyword::Const => "const"@,
            Keyword::Mut => "mut"@,
            Keyword::Private => "private"@,
            Keyword::If => "if"@,
            Keyword::Else => "else"@,
            Keyword::Match => "match"@,
            Keyword::For => "for"@,
            Keyword::In => "in"@,
            Keyword::While => "while"@,
            Keyword::Break => "break"@,
            Keyword::Continue => "continue"@,
            Keyword::Return => "return"@,
            Keyword::With => "with"@,
            Keyword::Throws => "throws"@,
            Keyword::Where => "where"@,
        }
    }

    /// The word that the keyword is written as.
    pub fn as_str(&self) -> (r: &'static str)
        ensures
            r@ == self.text(),
    {
        match self {
            Self::Func => "func",
            Self::Class => "class",
            Self::Require => "require",
            Self::Export => "export",
            Self::Let => "let",
            Self::Const => "const",
            Self::Mut => "mut",
            Self::Private => "private",
            Self::If => "if",
            Self::Else => "else",
            Self::Match => "match",
            Self::For => "for",
            Self::In => "in",
            Self::While => "while",
            Self::Break => "break",
            Self::Continue => "continue",
            Self::Return => "return",
            Self::With => "with",
            Self::Throws => "throws",
            Self::Where => "where",
        }
    }

    #[must_use]
    pub fn is_soft(&self) -> (r: bool)
        ensures
            r == self.soft(),
    {
        !matches!(
            self,
            Self::Func
                | Self::Class
                | Self::Let
                | Self::Const
                | Self::Mut
                | Self::If
                | Self::Else
                | Self::For
                | Self::In
                | Self::While
                | Self::Break
                | Self::Continue
                | Self::Return
                | Self::With
        )
    }
}

#[derive(Copy, Clone, Debug, PartialEq, Eq, Hash, Structural)]
pub enum Bracket {
    Paren,  // ()
    Bracket,  // []
    Brace,  // {}
}

#[derive(Clone, Debug, PartialEq, Eq, Hash)]
pub enum Token {
    Invalid(char),
    Operator(Operator),
    Literal(Literal),
    Keyword(Keyword),
    Identifier(String),
    StartBracket(Bracket),
    EndBracket(Bracket),
    Comma,
    Dot,
    Cast,  // ::
    Question,
    Semicolon,
    Assign,  // =
}

pub enum TokenView {
    Invalid(char),
    Operator(Operator),
    Literal(LiteralView),
    Keyword(Keyword),
    Identifier(Seq<char>),
    StartBracket(Bracket),
    EndBracket(Bracket),
    Comma,
    Dot,
    Cast,
    Question,
    Semicolon,
    Assign,
}

impl View for Token {
    type V = TokenView;

    open spec fn view(&self) -> TokenView {
        match self {
            Token::Invalid(c) => TokenView::Invalid(*c),
            Token::Operator(o) => TokenView::Operator(*o),
            Token::Literal(l) => TokenView::Literal(l@),
            Token::Keyword(k) => TokenView::Keyword(*k),
            Token::Identifier(s) => TokenView::Identifier(s@),
            Token::StartBracket(b) => TokenView::StartBracket(*b),
            Token::EndBracket(b) => TokenView::EndBracket(*b),
            Token::Comma => TokenView::Comma,
            Token::Dot => TokenView::Dot,
            Token::Cast => TokenView::Cast,
            Token::Question => TokenView::Question,
            Token::Semicolon => TokenView::Semicolon,
            Token::Assign => TokenView::Assign,
        }
    }
}

impl TokenView {
    /// The token of a plain string literal with the given decoded text.
    pub open spec fn string(text: Seq<char>) -> TokenView {
        TokenView::Literal(LiteralView::String(StringLiteralView::String(text)))
    }

    pub open spec fn integer(value: u128) -> TokenView {
        TokenView::Literal(LiteralView::Integer(value))
    }

    pub open spec fn float(text: Seq<char>) -> TokenView {
        TokenView::Literal(LiteralView::Float(text))
    }
}

} // verus!
