//! How tokens are written out.

use crate::token::{
    Bracket, Keyword, Literal, LiteralView, Operator, StringLiteral, StringLiteralView, Token,
    TokenView,
};
use vstd::prelude::*;
use vstd::string::StringExecFns;

verus! {

/// A string as `Debug` writes it: between double quotes, with the
/// characters that need it escaped.
pub uninterp spec fn debug_text(s: Seq<char>) -> Seq<char>;

/// Formats the string with `{:?}`, that is with `Debug` for `str`. Nothing
/// is claimed of the result but that it depends on the text alone.
#[verifier::external_body]
fn debug_string(s: &String) -> (r: String)
    ensures
        r@ == debug_text(s@),
{
    format!("{:?}", s)
}

/// The character that writes the digit `d`.
pub open spec fn digit_char(d: nat) -> char {
    ('0' as nat + d) as char
}

/// The decimal digits of `n`, without leading zeros.
pub open spec fn decimal_text(n: nat) -> Seq<char>
    decreases n,
{
    if n < 10 {
        seq![digit_char(n)]
    } else {
        decimal_text(n / 10).push(digit_char(n % 10))
    }
}

fn digit_to_char(d: u8) -> (c: char)
    requires
        d < 10,
    ensures
        c == digit_char(d as nat),
{
    (0x30u8 + d) as char
}

/// Writes a number in decimal digits.
pub fn integer_text(value: u128) -> (r: String)
    ensures
        r@ == decimal_text(value as nat),
{
    let ghost text = decimal_text(value as nat);
    // The digits from the last to the first.
    let mut digits: Vec<char> = Vec::new();
    digits.push(digit_to_char((value % 10) as u8));
    let mut rest: u128 = value / 10;
    proof {
        assert(digits@.reverse() =~= seq![digit_char((value % 10) as nat)]);
        assert(Seq::<char>::empty().push(digit_char((value % 10) as nat)) =~= seq![
            digit_char((value % 10) as nat),
        ]);
        if rest > 0 {
            assert(decimal_text(rest as nat).push(digit_char((value % 10) as nat))
                =~= decimal_text(rest as nat) + digits@.reverse());
        }
    }
    while rest > 0
        invariant
            digits.len() > 0,
            rest == 0 ==> text == digits@.reverse(),
            rest > 0 ==> text == decimal_text(rest as nat) + digits@.reverse(),
        decreases rest,
    {
        let ghost before = digits@;
        let ghost d = digit_char((rest % 10) as nat);
        digits.push(digit_to_char((rest % 10) as u8));
        proof {
            assert(digits@.reverse() =~= seq![d] + before.reverse());
            if rest < 10 {
                assert(seq![d] + before.reverse() =~= decimal_text(rest as nat)
                    + before.reverse());
            } else {
                assert(decimal_text((rest / 10) as nat).push(d) + before.reverse()
                    =~= decimal_text((rest / 10) as nat) + (seq![d] + before.reverse()));
            }
        }
        rest = rest / 10;
    }
    let mut s = String::new();
    let mut k: usize = digits.len();
    while k > 0
        invariant
            k <= digits.len(),
            s@ == digits@.reverse().take(digits.len() - k),
        decreases k,
    {
        k -= 1;
        proof {
            assert(digits@.reverse().take(digits.len() - k) =~= digits@.reverse().take(
                digits.len() - k - 1,
            ).push(digits@[k as int]));
        }
        s.push(digits[k]);
    }
    proof {
        assert(digits@.reverse().take(digits.len() as int) =~= digits@.reverse());
    }
    s
}

impl Operator {
    /// The characters that the operator is written with.
    pub open spec fn text(self) -> Seq<char> {
        match self {
            Operator::Add => "+"@,
            Operator::Sub => "-"@,
            Operator::Mul => "*"@,
            Operator::Div => "/"@,
            Operator::Mod => "%"@,
            Operator::Pow => "**"@,
            Operator::Eq => "=="@,
            Operator::Ne => "!="@,
            Operator::Lt => "<"@,
            Operator::Le => "<="@,
            Operator::Gt => ">"@,
            Operator::Ge => ">="@,
            Operator::Or => "||"@,
            Operator::And => "&&"@,
            Operator::Not => "!"@,
            Operator::BitOr => "|"@,
            Operator::BitXor => "^"@,
            Operator::BitAnd => "&"@,
            Operator::BitNot => "~"@,
            Operator::BitLShift => "<<"@,
            Operator::BitRShift => ">>"@,
            Operator::Range => ".."@,
        }
    }

    /// The characters that the operator is written with.
    pub fn as_str(&self) -> (r: &'static str)
        ensures
            r@ == self.text(),
    {
        match self {
            Self::Add => "+",
            Self::Sub => "-",
            Self::Mul => "*",
            Self::Div => "/",
            Self::Mod => "%",
            Self::Pow => "**",
            Self::Eq => "==",
            Self::Ne => "!=",
            Self::Lt => "<",
            Self::Le => "<=",
            Self::Gt => ">",
            Self::Ge => ">=",
            Self::Or => "||",
            Self::And => "&&",
            Self::Not => "!",
            Self::BitOr => "|",
            Self::BitXor => "^",
            Self::BitAnd => "&",
            Self::BitNot => "~",
            Self::BitLShift => "<<",
            Self::BitRShift => ">>",
            Self::Range => "..",
        }
    }

    pub fn to_string(&self) -> (r: String)
        ensures
            r@ == self.text(),
    {
        self.as_str().to_owned()
    }
}

impl Keyword {
    pub fn to_string(&self) -> (r: String)
        ensures
            r@ == self.text(),
    {
        self.as_str().to_owned()
    }
}

impl Bracket {
    /// The character that opens the bracket.
    pub open spec fn opening(self) -> Seq<char> {
        match self {
            Bracket::Paren => "("@,
            Bracket::Bracket => "["@,
            Bracket::Brace => "{"@,
        }
    }

    /// The character that closes the bracket.
    pub open spec fn closing(self) -> Seq<char> {
        match self {
            Bracket::Paren => ")"@,
            Bracket::Bracket => "]"@,
            Bracket::Brace => "}"@,
        }
    }

    pub fn opening_str(&self) -> (r: &'static str)
        ensures
            r@ == self.opening(),
    {
        match self {
            Bracket::Paren => "(",
            Bracket::Bracket => "[",
            Bracket::Brace => "{",
        }
    }

    pub fn closing_str(&self) -> (r: &'static str)
        ensures
            r@ == self.closing(),
    {
        match self {
            Bracket::Paren => ")",
            Bracket::Bracket => "]",
            Bracket::Brace => "}",
        }
    }
}

impl StringLiteralView {
    /// The mark of the kind of literal, then the text as `Debug` writes it.
    pub open spec fn text(self) -> Seq<char> {
        match self {
            StringLiteralView::String(s) => debug_text(s),
            StringLiteralView::ByteString(s) => "~"@ + debug_text(s),
            StringLiteralView::RawString(s) => "r"@ + debug_text(s),
            StringLiteralView::InterpolatedString(s) => "$"@ + debug_text(s),
        }
    }
}

fn marked(mark: &str, s: &String) -> (r: String)
    ensures
        r@ == mark@ + debug_text(s@),
{
    let mut r = mark.to_owned();
    let quoted = debug_string(s);
    r.append(quoted.as_str());
    r
}

impl StringLiteral {
    pub fn to_string(&self) -> (r: String)
        ensures
            r@ == self@.text(),
    {
        match self {
            Self::String(s) => debug_string(s),
            Self::ByteString(s) => marked("~", s),
            Self::RawString(s) => marked("r", s),
            Self::InterpolatedString(s) => marked("$", s),
        }
    }
}

impl LiteralView {
    /// A string as its kind writes it, an integer in decimal digits, a
    /// float as it was written.
    pub open spec fn text(self) -> Seq<char> {
        match self {
            LiteralView::String(s) => s.text(),
            LiteralView::Integer(i) => decimal_text(i as nat),
            LiteralView::Float(f) => f,
        }
    }
}

impl Literal {
    pub fn to_string(&self) -> (r: String)
        ensures
            r@ == self@.text(),
    {
        match self {
            Self::String(s) => s.to_string(),
            Self::Integer(i) => integer_text(*i),
            Self::Float(f) => f.clone(),
        }
    }
}

impl TokenView {
    /// The characters that write the token.
    pub open spec fn text(self) -> Seq<char> {
        match self {
            TokenView::Invalid(c) => seq![c],
            TokenView::Operator(o) => o.text(),
            TokenView::Literal(l) => l.text(),
            TokenView::Keyword(k) => k.text(),
            TokenView::Identifier(s) => s,
            TokenView::StartBracket(b) => b.opening(),
            TokenView::EndBracket(b) => b.closing(),
            TokenView::Comma => ","@,
            TokenView::Dot => "."@,
            TokenView::Cast => "::"@,
            TokenView::Question => "?"@,
            TokenView::Semicolon => ";"@,
            TokenView::Assign => "="@,
        }
    }
}

impl Token {
    pub fn to_string(&self) -> (r: String)
        ensures
            r@ == self@.text(),
    {
        match self {
            Self::Invalid(c) => {
                let mut s = String::new();
                s.push(*c);
                s
            },
            Self::Operator(o) => o.to_string(),
            Self::Literal(l) => l.to_string(),
            Self::Keyword(k) => k.to_string(),
            Self::Identifier(s) => s.clone(),
            Self::StartBracket(b) => b.opening_str().to_owned(),
            Self::EndBracket(b) => b.closing_str().to_owned(),
            Self::Comma => ",".to_owned(),
            Self::Dot => ".".to_owned(),
            Self::Cast => "::".to_owned(),
            Self::Question => "?".to_owned(),
            Self::Semicolon => ";".to_owned(),
            Self::Assign => "=".to_owned(),
        }
    }
}

} // verus!
