use terbium_grammar::{
    get_lexer, Bracket, Error, ErrorKind, Keyword, Literal, Operator, Span, StringLiteral, Token,
};

fn lex(source: &str) -> (Vec<Token>, Vec<Error>) {
    let (tokens, errors) = get_lexer().parse_recovery(source);
    (tokens.into_iter().map(|(token, _)| token).collect(), errors)
}

fn spans(source: &str) -> Vec<(usize, usize)> {
    let (tokens, _) = get_lexer().parse_recovery(source);
    tokens.into_iter().map(|(_, span)| (span.start, span.end)).collect()
}

fn ident(name: &str) -> Token {
    Token::Identifier(name.to_string())
}

fn integer(value: u128) -> Token {
    Token::Literal(Literal::Integer(value))
}

fn decimal(text: &str) -> Token {
    Token::Literal(Literal::Float(text.to_string()))
}

fn string(text: &str) -> Token {
    Token::Literal(Literal::String(StringLiteral::String(text.to_string())))
}

fn op(operator: Operator) -> Token {
    Token::Operator(operator)
}

fn error(kind: ErrorKind, start: usize, end: usize) -> Error {
    Error { kind, span: Span { start, end } }
}

#[test]
fn empty_text_has_no_tokens() {
    assert_eq!(lex(""), (vec![], vec![]));
    assert_eq!(lex("  \t\r\n "), (vec![], vec![]));
}

#[test]
fn integer_alone() {
    assert_eq!(lex("0"), (vec![integer(0)], vec![]));
    assert_eq!(lex("1452"), (vec![integer(1452)], vec![]));
    assert_eq!(spans("1452"), vec![(0, 4)]);
}

#[test]
fn integer_with_leading_zeros_is_one_token() {
    assert_eq!(lex("007"), (vec![integer(7)], vec![]));
}

#[test]
fn largest_integer() {
    assert_eq!(
        lex("170141183460469231731687303715884105727"),
        (vec![integer(170141183460469231731687303715884105727)], vec![])
    );
}

#[test]
fn integer_overflow_is_reported() {
    let source = "170141183460469231731687303715884105728";
    assert_eq!(lex(source), (vec![], vec![error(ErrorKind::IntegerOverflow, 0, 39)]));
    let long = "99999999999999999999999999999999999999999999999999";
    assert_eq!(lex(long), (vec![], vec![error(ErrorKind::IntegerOverflow, 0, 50)]));
}

#[test]
fn scanning_resumes_after_overflow() {
    let source = "170141183460469231731687303715884105728 + 1";
    assert_eq!(
        lex(source),
        (vec![op(Operator::Add), integer(1)], vec![error(ErrorKind::IntegerOverflow, 0, 39)])
    );
}

#[test]
fn minus_is_a_token_of_its_own() {
    assert_eq!(lex("-5"), (vec![op(Operator::Sub), integer(5)], vec![]));
}

#[test]
fn floats_keep_their_text() {
    assert_eq!(lex("1.5"), (vec![decimal("1.5")], vec![]));
    assert_eq!(lex(".5"), (vec![decimal(".5")], vec![]));
    assert_eq!(lex("1."), (vec![decimal("1.")], vec![]));
    assert_eq!(lex("0.10"), (vec![decimal("0.10")], vec![]));
    assert_eq!(lex("1.e"), (vec![decimal("1."), ident("e")], vec![]));
    assert_eq!(lex("1.5.3"), (vec![decimal("1.5"), decimal(".3")], vec![]));
    assert_eq!(lex("a.5"), (vec![ident("a"), decimal(".5")], vec![]));
}

#[test]
fn range_between_integers() {
    assert_eq!(lex("1..2"), (vec![integer(1), op(Operator::Range), integer(2)], vec![]));
    assert_eq!(spans("1..2"), vec![(0, 1), (1, 3), (3, 4)]);
}

#[test]
fn plain_string() {
    assert_eq!(lex("\"hello\""), (vec![string("hello")], vec![]));
    assert_eq!(lex("'hello'"), (vec![string("hello")], vec![]));
    assert_eq!(lex("\"\""), (vec![string("")], vec![]));
    assert_eq!(spans("\"hello\""), vec![(0, 7)]);
}

#[test]
fn quotes_close_only_their_own_kind() {
    assert_eq!(lex("\"it's\""), (vec![string("it's")], vec![]));
    assert_eq!(lex("'say \"hi\"'"), (vec![string("say \"hi\"")], vec![]));
}

#[test]
fn string_may_hold_comment_marks_and_line_ends() {
    assert_eq!(lex("\"a // b\""), (vec![string("a // b")], vec![]));
    assert_eq!(lex("\"a /* b\""), (vec![string("a /* b")], vec![]));
    assert_eq!(lex("\"a\nb\""), (vec![string("a\nb")], vec![]));
}

#[test]
fn escapes_decode_to_their_characters() {
    assert_eq!(lex(r#""\\""#), (vec![string("\\")], vec![]));
    assert_eq!(lex(r#""\"""#), (vec![string("\"")], vec![]));
    assert_eq!(lex(r#""\'""#), (vec![string("'")], vec![]));
    assert_eq!(lex(r#""\b""#), (vec![string("\u{8}")], vec![]));
    assert_eq!(lex(r#""\f""#), (vec![string("\u{c}")], vec![]));
    assert_eq!(lex(r#""\n""#), (vec![string("\n")], vec![]));
    assert_eq!(lex(r#""\r""#), (vec![string("\r")], vec![]));
    assert_eq!(lex(r#""\t""#), (vec![string("\t")], vec![]));
    assert_eq!(lex(r#""\x41""#), (vec![string("A")], vec![]));
    assert_eq!(lex(r#""\u0041""#), (vec![string("A")], vec![]));
    assert_eq!(lex(r#""\U00000041""#), (vec![string("A")], vec![]));
    assert_eq!(lex(r#""\xff""#), (vec![string("\u{ff}")], vec![]));
    assert_eq!(lex(r#""\xFF""#), (vec![string("\u{ff}")], vec![]));
    assert_eq!(lex(r#""\u20AC""#), (vec![string("\u{20ac}")], vec![]));
    assert_eq!(lex(r#""\U0001F600""#), (vec![string("\u{1F600}")], vec![]));
    assert_eq!(lex(r#""a\tb\x41c""#), (vec![string("a\tbAc")], vec![]));
}

#[test]
fn hex_escape_takes_exactly_its_digits() {
    assert_eq!(lex(r#""\x414""#), (vec![string("A4")], vec![]));
    assert_eq!(lex(r#""\u00411""#), (vec![string("A1")], vec![]));
}

#[test]
fn escape_without_digits_is_replaced() {
    assert_eq!(
        lex(r#""\uZZZZ""#),
        (vec![string("\u{FFFD}ZZZZ")], vec![error(ErrorKind::InvalidUnicodeEscape, 1, 3)])
    );
}

#[test]
fn escape_with_too_few_digits_is_replaced() {
    assert_eq!(
        lex(r#""a\u12g""#),
        (vec![string("a\u{FFFD}g")], vec![error(ErrorKind::InvalidUnicodeEscape, 2, 6)])
    );
    assert_eq!(
        lex(r#""\x4""#),
        (vec![string("\u{FFFD}")], vec![error(ErrorKind::InvalidUnicodeEscape, 1, 4)])
    );
}

#[test]
fn surrogate_escape_is_replaced() {
    assert_eq!(
        lex(r#""\uD800x""#),
        (vec![string("\u{FFFD}x")], vec![error(ErrorKind::InvalidUnicodeEscape, 1, 7)])
    );
    assert_eq!(
        lex(r#""\uDFFF""#),
        (vec![string("\u{FFFD}")], vec![error(ErrorKind::InvalidUnicodeEscape, 1, 7)])
    );
    assert_eq!(lex(r#""\uD7FF\uE000""#), (vec![string("\u{D7FF}\u{E000}")], vec![]));
}

#[test]
fn escape_beyond_unicode_is_replaced() {
    assert_eq!(
        lex(r#""\U00110000""#),
        (vec![string("\u{FFFD}")], vec![error(ErrorKind::InvalidUnicodeEscape, 1, 11)])
    );
    assert_eq!(
        lex(r#""\UFFFFFFFF""#),
        (vec![string("\u{FFFD}")], vec![error(ErrorKind::InvalidUnicodeEscape, 1, 11)])
    );
    assert_eq!(lex(r#""\U0010FFFF""#), (vec![string("\u{10FFFF}")], vec![]));
}

#[test]
fn unknown_escape_is_replaced() {
    assert_eq!(
        lex(r#""a\qb""#),
        (vec![string("a\u{FFFD}b")], vec![error(ErrorKind::InvalidUnicodeEscape, 2, 4)])
    );
}

#[test]
fn each_invalid_escape_has_its_diagnostic() {
    assert_eq!(
        lex(r#""\uZ\q""#),
        (
            vec![string("\u{FFFD}Z\u{FFFD}")],
            vec![
                error(ErrorKind::InvalidUnicodeEscape, 1, 3),
                error(ErrorKind::InvalidUnicodeEscape, 4, 6)
            ]
        )
    );
}

#[test]
fn unterminated_string_is_reported() {
    assert_eq!(lex("\"abc"), (vec![], vec![error(ErrorKind::UnterminatedString, 0, 4)]));
    assert_eq!(
        lex("x 'abc\""),
        (vec![ident("x")], vec![error(ErrorKind::UnterminatedString, 2, 7)])
    );
    assert_eq!(lex("\"abc\\"), (
        vec![],
        vec![
            error(ErrorKind::InvalidUnicodeEscape, 4, 5),
            error(ErrorKind::UnterminatedString, 0, 5)
        ]
    ));
    assert_eq!(lex("\"abc\\\""), (vec![], vec![error(ErrorKind::UnterminatedString, 0, 6)]));
}

#[test]
fn right_shift_before_an_operand() {
    assert_eq!(lex("a>>b"), (vec![ident("a"), op(Operator::BitRShift), ident("b")], vec![]));
    assert_eq!(lex("a>>1"), (vec![ident("a"), op(Operator::BitRShift), integer(1)], vec![]));
    assert_eq!(lex("a >> b"), (vec![ident("a"), op(Operator::BitRShift), ident("b")], vec![]));
    assert_eq!(
        lex("a>>(b)"),
        (
            vec![
                ident("a"),
                op(Operator::BitRShift),
                Token::StartBracket(Bracket::Paren),
                ident("b"),
                Token::EndBracket(Bracket::Paren)
            ],
            vec![]
        )
    );
}

#[test]
fn closing_angles_are_two_tokens() {
    let gt = || op(Operator::Gt);
    assert_eq!(
        lex("Vec<Vec<int>>"),
        (
            vec![
                ident("Vec"),
                op(Operator::Lt),
                ident("Vec"),
                op(Operator::Lt),
                ident("int"),
                gt(),
                gt()
            ],
            vec![]
        )
    );
    assert_eq!(lex(">>)"), (vec![gt(), gt(), Token::EndBracket(Bracket::Paren)], vec![]));
    assert_eq!(lex(">>,"), (vec![gt(), gt(), Token::Comma], vec![]));
    assert_eq!(lex(">>;"), (vec![gt(), gt(), Token::Semicolon], vec![]));
    assert_eq!(lex(">>]"), (vec![gt(), gt(), Token::EndBracket(Bracket::Bracket)], vec![]));
    assert_eq!(lex(">>}"), (vec![gt(), gt(), Token::EndBracket(Bracket::Brace)], vec![]));
    assert_eq!(lex(">><"), (vec![gt(), gt(), op(Operator::Lt)], vec![]));
    assert_eq!(lex(">>>"), (vec![gt(), gt(), gt()], vec![]));
    assert_eq!(lex(">>"), (vec![gt(), gt()], vec![]));
    assert_eq!(spans(">>)"), vec![(0, 1), (1, 2), (2, 3)]);
}

#[test]
fn third_angle_may_open_a_shift() {
    assert_eq!(
        lex(">>>a"),
        (vec![op(Operator::Gt), op(Operator::BitRShift), ident("a")], vec![])
    );
}

#[test]
fn longer_symbol_wins() {
    assert_eq!(lex("::"), (vec![Token::Cast], vec![]));
    assert_eq!(lex(".."), (vec![op(Operator::Range)], vec![]));
    assert_eq!(lex("**"), (vec![op(Operator::Pow)], vec![]));
    assert_eq!(lex("=="), (vec![op(Operator::Eq)], vec![]));
    assert_eq!(lex("!="), (vec![op(Operator::Ne)], vec![]));
    assert_eq!(lex("<="), (vec![op(Operator::Le)], vec![]));
    assert_eq!(lex(">="), (vec![op(Operator::Ge)], vec![]));
    assert_eq!(lex("<<"), (vec![op(Operator::BitLShift)], vec![]));
    assert_eq!(lex("||"), (vec![op(Operator::Or)], vec![]));
    assert_eq!(lex("&&"), (vec![op(Operator::And)], vec![]));
    assert_eq!(lex("==="), (vec![op(Operator::Eq), Token::Assign], vec![]));
    assert_eq!(lex("***"), (vec![op(Operator::Pow), op(Operator::Mul)], vec![]));
    assert_eq!(lex("..."), (vec![op(Operator::Range), Token::Dot], vec![]));
    assert_eq!(lex(">>="), (vec![op(Operator::BitRShift), Token::Assign], vec![]));
    assert_eq!(lex("<<="), (vec![op(Operator::BitLShift), Token::Assign], vec![]));
}

#[test]
fn single_symbols() {
    assert_eq!(
        lex(", ; ? . + - * / % ! = < > | ^ & ~"),
        (
            vec![
                Token::Comma,
                Token::Semicolon,
                Token::Question,
                Token::Dot,
                op(Operator::Add),
                op(Operator::Sub),
                op(Operator::Mul),
                op(Operator::Div),
                op(Operator::Mod),
                op(Operator::Not),
                Token::Assign,
                op(Operator::Lt),
                op(Operator::Gt),
                op(Operator::BitOr),
                op(Operator::BitXor),
                op(Operator::BitAnd),
                op(Operator::BitNot)
            ],
            vec![]
        )
    );
}

#[test]
fn lone_colon_is_invalid() {
    assert_eq!(
        lex("a:b"),
        (
            vec![ident("a"), Token::Invalid(':'), ident("b")],
            vec![error(ErrorKind::UnexpectedToken(':'), 1, 2)]
        )
    );
}

#[test]
fn brackets_are_not_matched() {
    assert_eq!(
        lex("([{)]}"),
        (
            vec![
                Token::StartBracket(Bracket::Paren),
                Token::StartBracket(Bracket::Bracket),
                Token::StartBracket(Bracket::Brace),
                Token::EndBracket(Bracket::Paren),
                Token::EndBracket(Bracket::Bracket),
                Token::EndBracket(Bracket::Brace)
            ],
            vec![]
        )
    );
}

#[test]
fn identifiers() {
    assert_eq!(lex("foo"), (vec![ident("foo")], vec![]));
    assert_eq!(lex("_foo_1"), (vec![ident("_foo_1")], vec![]));
    assert_eq!(lex("x1 y2"), (vec![ident("x1"), ident("y2")], vec![]));
    assert_eq!(lex("1x"), (vec![integer(1), ident("x")], vec![]));
}

#[test]
fn every_keyword_is_recognised() {
    let table = [
        ("func", Keyword::Func),
        ("class", Keyword::Class),
        ("require", Keyword::Require),
        ("export", Keyword::Export),
        ("let", Keyword::Let),
        ("const", Keyword::Const),
        ("mut", Keyword::Mut),
        ("private", Keyword::Private),
        ("if", Keyword::If),
        ("else", Keyword::Else),
        ("match", Keyword::Match),
        ("for", Keyword::For),
        ("in", Keyword::In),
        ("while", Keyword::While),
        ("break", Keyword::Break),
        ("continue", Keyword::Continue),
        ("return", Keyword::Return),
        ("with", Keyword::With),
        ("throws", Keyword::Throws),
        ("where", Keyword::Where),
    ];
    for (text, keyword) in table {
        assert_eq!(lex(text), (vec![Token::Keyword(keyword)], vec![]));
        assert_eq!(keyword.as_str(), text);
    }
}

#[test]
fn keyword_must_be_the_whole_word() {
    assert_eq!(lex("iff"), (vec![ident("iff")], vec![]));
    assert_eq!(lex("If"), (vec![ident("If")], vec![]));
    assert_eq!(lex("let_"), (vec![ident("let_")], vec![]));
    assert_eq!(lex("i"), (vec![ident("i")], vec![]));
    assert_eq!(lex("in1"), (vec![ident("in1")], vec![]));
}

#[test]
fn unrecognised_character_is_invalid() {
    assert_eq!(
        lex("@"),
        (vec![Token::Invalid('@')], vec![error(ErrorKind::UnexpectedToken('@'), 0, 1)])
    );
    assert_eq!(
        lex("a @ b"),
        (
            vec![ident("a"), Token::Invalid('@'), ident("b")],
            vec![error(ErrorKind::UnexpectedToken('@'), 2, 3)]
        )
    );
    assert_eq!(
        lex("@#"),
        (
            vec![Token::Invalid('@'), Token::Invalid('#')],
            vec![
                error(ErrorKind::UnexpectedToken('@'), 0, 1),
                error(ErrorKind::UnexpectedToken('#'), 1, 2)
            ]
        )
    );
}

#[test]
fn letters_beyond_ascii_are_invalid() {
    assert_eq!(
        lex("\u{e9}"),
        (vec![Token::Invalid('\u{e9}')], vec![error(ErrorKind::UnexpectedToken('\u{e9}'), 0, 1)])
    );
}

#[test]
fn digits_beyond_ascii_are_no_digits() {
    assert_eq!(
        lex("\u{663}"),
        (
            vec![Token::Invalid('\u{663}')],
            vec![error(ErrorKind::UnexpectedToken('\u{663}'), 0, 1)]
        )
    );
    assert_eq!(lex("1a"), (vec![integer(1), ident("a")], vec![]));
    assert_eq!(
        lex("1:"),
        (vec![integer(1), Token::Invalid(':')], vec![error(ErrorKind::UnexpectedToken(':'), 1, 2)])
    );
}

#[test]
fn comments_leave_no_tokens() {
    assert_eq!(lex("a/*x*/b"), (vec![ident("a"), ident("b")], vec![]));
    assert_eq!(spans("a/*x*/b"), vec![(0, 1), (6, 7)]);
    assert_eq!(lex("a // x\nb"), (vec![ident("a"), ident("b")], vec![]));
    assert_eq!(lex("a // x"), (vec![ident("a")], vec![]));
    assert_eq!(lex("// x"), (vec![], vec![]));
    assert_eq!(lex("/**/"), (vec![], vec![]));
    assert_eq!(lex("/* a */ /* b */ // c\n /* d */ e"), (vec![ident("e")], vec![]));
    assert_eq!(lex("a /* x \n y */ b"), (vec![ident("a"), ident("b")], vec![]));
}

#[test]
fn block_comments_do_not_nest() {
    assert_eq!(
        lex("/* a /* b */ c */"),
        (vec![ident("c"), op(Operator::Mul), op(Operator::Div)], vec![])
    );
}

#[test]
fn block_comment_needs_its_own_star() {
    assert_eq!(lex("/*/ a"), (vec![], vec![]));
    assert_eq!(lex("/*/ a */ b"), (vec![ident("b")], vec![]));
}

#[test]
fn unterminated_block_comment_runs_to_the_end() {
    assert_eq!(lex("a /* b c"), (vec![ident("a")], vec![]));
    assert_eq!(lex("a /*"), (vec![ident("a")], vec![]));
}

#[test]
fn line_comment_ends_at_any_line_end() {
    for end in ["\n", "\r", "\r\n", "\u{b}", "\u{c}", "\u{85}", "\u{2028}", "\u{2029}"] {
        let source = format!("// x{}b", end);
        assert_eq!(lex(&source), (vec![ident("b")], vec![]));
    }
}

#[test]
fn whitespace_beyond_ascii_separates_tokens() {
    assert_eq!(lex("a\u{a0}b"), (vec![ident("a"), ident("b")], vec![]));
    assert_eq!(lex("a\u{3000}b"), (vec![ident("a"), ident("b")], vec![]));
    assert_eq!(spans("a\u{a0}b"), vec![(0, 1), (2, 3)]);
}

#[test]
fn zero_width_space_is_no_whitespace() {
    assert_eq!(
        lex("a\u{200b}b"),
        (
            vec![ident("a"), Token::Invalid('\u{200b}'), ident("b")],
            vec![error(ErrorKind::UnexpectedToken('\u{200b}'), 1, 2)]
        )
    );
}

#[test]
fn spans_count_characters() {
    assert_eq!(spans("\"\u{e9}\" x"), vec![(0, 3), (4, 5)]);
}

#[test]
fn parse_fails_when_a_diagnostic_was_raised() {
    assert_eq!(
        get_lexer().parse("a b"),
        Ok(vec![
            (ident("a"), Span { start: 0, end: 1 }),
            (ident("b"), Span { start: 2, end: 3 })
        ])
    );
    assert_eq!(get_lexer().parse("a @"), Err(vec![error(ErrorKind::UnexpectedToken('@'), 2, 3)]));
    assert_eq!(get_lexer().parse(""), Ok(vec![]));
}

#[test]
fn tokens_are_in_source_order_without_overlap() {
    let source = "func f(x) { return x >> 2 + .5 /* c */ \"s\\n\" }";
    let (tokens, errors) = get_lexer().parse_recovery(source);
    assert!(errors.is_empty());
    let mut last = 0;
    for (_, span) in &tokens {
        assert!(last <= span.start);
        assert!(span.start < span.end);
        last = span.end;
    }
    assert!(last <= source.chars().count());
    assert_eq!(tokens.len(), 14);
}

#[test]
fn a_small_program() {
    assert_eq!(
        lex("let x = a.b(1, 2.0);"),
        (
            vec![
                Token::Keyword(Keyword::Let),
                ident("x"),
                Token::Assign,
                ident("a"),
                Token::Dot,
                ident("b"),
                Token::StartBracket(Bracket::Paren),
                integer(1),
                Token::Comma,
                decimal("2.0"),
                Token::EndBracket(Bracket::Paren),
                Token::Semicolon
            ],
            vec![]
        )
    );
}
