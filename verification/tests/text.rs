use terbium_grammar::{
    get_lexer, integer_text, Bracket, Keyword, Literal, Operator, StringLiteral, Token,
};

#[test]
fn integers_are_written_in_decimal() {
    assert_eq!(integer_text(0), "0");
    assert_eq!(integer_text(7), "7");
    assert_eq!(integer_text(10), "10");
    assert_eq!(integer_text(1234567890), "1234567890");
    assert_eq!(integer_text(1000000), "1000000");
    assert_eq!(integer_text(u128::MAX), "340282366920938463463374607431768211455");
    assert_eq!(Literal::Integer(42).to_string(), "42");
}

#[test]
fn operators_are_written_as_in_source() {
    let table = [
        (Operator::Add, "+"),
        (Operator::Sub, "-"),
        (Operator::Mul, "*"),
        (Operator::Div, "/"),
        (Operator::Mod, "%"),
        (Operator::Pow, "**"),
        (Operator::Eq, "=="),
        (Operator::Ne, "!="),
        (Operator::Lt, "<"),
        (Operator::Le, "<="),
        (Operator::Gt, ">"),
        (Operator::Ge, ">="),
        (Operator::Or, "||"),
        (Operator::And, "&&"),
        (Operator::Not, "!"),
        (Operator::BitOr, "|"),
        (Operator::BitXor, "^"),
        (Operator::BitAnd, "&"),
        (Operator::BitNot, "~"),
        (Operator::BitLShift, "<<"),
        (Operator::BitRShift, ">>"),
        (Operator::Range, ".."),
    ];
    for (operator, text) in table {
        assert_eq!(operator.to_string(), text);
        assert_eq!(operator.as_str(), text);
        assert_eq!(Token::Operator(operator).to_string(), text);
    }
}

#[test]
fn written_operators_lex_back() {
    let all = [
        Operator::Add,
        Operator::Sub,
        Operator::Mul,
        Operator::Div,
        Operator::Mod,
        Operator::Pow,
        Operator::Eq,
        Operator::Ne,
        Operator::Lt,
        Operator::Le,
        Operator::Gt,
        Operator::Ge,
        Operator::Or,
        Operator::And,
        Operator::Not,
        Operator::BitOr,
        Operator::BitXor,
        Operator::BitAnd,
        Operator::BitNot,
        Operator::BitLShift,
        Operator::Range,
    ];
    for operator in all {
        let (tokens, errors) = get_lexer().parse_recovery(&operator.to_string());
        assert!(errors.is_empty());
        assert_eq!(tokens.len(), 1);
        assert_eq!(tokens[0].0, Token::Operator(operator));
    }
    let (tokens, _) = get_lexer().parse_recovery(">> 1");
    assert_eq!(tokens[0].0, Token::Operator(Operator::BitRShift));
}

#[test]
fn unary_and_binary_operators() {
    let unary = [Operator::Add, Operator::Sub, Operator::Not, Operator::BitNot];
    let all = [
        Operator::Add,
        Operator::Sub,
        Operator::Mul,
        Operator::Div,
        Operator::Mod,
        Operator::Pow,
        Operator::Eq,
        Operator::Ne,
        Operator::Lt,
        Operator::Le,
        Operator::Gt,
        Operator::Ge,
        Operator::Or,
        Operator::And,
        Operator::Not,
        Operator::BitOr,
        Operator::BitXor,
        Operator::BitAnd,
        Operator::BitNot,
        Operator::BitLShift,
        Operator::BitRShift,
        Operator::Range,
    ];
    for operator in all {
        assert_eq!(operator.supports_unary(), unary.contains(&operator));
        assert_eq!(operator.supports_binary(), operator != Operator::BitNot);
    }
}

#[test]
fn soft_keywords() {
    let soft = [
        Keyword::Require,
        Keyword::Export,
        Keyword::Private,
        Keyword::Match,
        Keyword::Throws,
        Keyword::Where,
    ];
    let hard = [
        Keyword::Func,
        Keyword::Class,
        Keyword::Let,
        Keyword::Const,
        Keyword::Mut,
        Keyword::If,
        Keyword::Else,
        Keyword::For,
        Keyword::In,
        Keyword::While,
        Keyword::Break,
        Keyword::Continue,
        Keyword::Return,
        Keyword::With,
    ];
    for keyword in soft {
        assert!(keyword.is_soft());
    }
    for keyword in hard {
        assert!(!keyword.is_soft());
    }
}

#[test]
fn keywords_are_written_as_their_word() {
    assert_eq!(Keyword::Func.to_string(), "func");
    assert_eq!(Keyword::Continue.to_string(), "continue");
    assert_eq!(Token::Keyword(Keyword::Where).to_string(), "where");
}

#[test]
fn string_literals_are_written_quoted() {
    let text = || "a\"b\n".to_string();
    assert_eq!(StringLiteral::String(text()).to_string(), "\"a\\\"b\\n\"");
    assert_eq!(StringLiteral::ByteString(text()).to_string(), "~\"a\\\"b\\n\"");
    assert_eq!(StringLiteral::RawString(text()).to_string(), "r\"a\\\"b\\n\"");
    assert_eq!(StringLiteral::InterpolatedString(text()).to_string(), "$\"a\\\"b\\n\"");
    assert_eq!(StringLiteral::String(String::new()).to_string(), "\"\"");
    assert_eq!(
        Token::Literal(Literal::String(StringLiteral::String("hi".to_string()))).to_string(),
        "\"hi\""
    );
}

#[test]
fn floats_are_written_as_they_were() {
    assert_eq!(Literal::Float("1.50".to_string()).to_string(), "1.50");
    assert_eq!(Token::Literal(Literal::Float(".5".to_string())).to_string(), ".5");
}

#[test]
fn other_tokens_are_written_as_in_source() {
    assert_eq!(Token::Invalid('@').to_string(), "@");
    assert_eq!(Token::Identifier("foo_1".to_string()).to_string(), "foo_1");
    assert_eq!(Token::StartBracket(Bracket::Paren).to_string(), "(");
    assert_eq!(Token::StartBracket(Bracket::Bracket).to_string(), "[");
    assert_eq!(Token::StartBracket(Bracket::Brace).to_string(), "{");
    assert_eq!(Token::EndBracket(Bracket::Paren).to_string(), ")");
    assert_eq!(Token::EndBracket(Bracket::Bracket).to_string(), "]");
    assert_eq!(Token::EndBracket(Bracket::Brace).to_string(), "}");
    assert_eq!(Token::Comma.to_string(), ",");
    assert_eq!(Token::Dot.to_string(), ".");
    assert_eq!(Token::Cast.to_string(), "::");
    assert_eq!(Token::Question.to_string(), "?");
    assert_eq!(Token::Semicolon.to_string(), ";");
    assert_eq!(Token::Assign.to_string(), "=");
}

#[test]
fn written_integer_lexes_back() {
    for value in [0u128, 9, 10, 4096, 170141183460469231731687303715884105727] {
        let (tokens, errors) = get_lexer().parse_recovery(&integer_text(value));
        assert!(errors.is_empty());
        assert_eq!(tokens.len(), 1);
        assert_eq!(tokens[0].0, Token::Literal(Literal::Integer(value)));
    }
}
