use tinylang::lexer::{
    Bracket, Cursor, Keyword, Lexer, NumberChar, Operator, Position, Punctuation, Separation,
    Separator, Space, Token, TokenKind,
};

fn lexer_on(text: &str) -> Lexer {
    Lexer::new(text.chars().collect())
}

#[test]
fn bracket_parse_bracket() {
    assert_eq!(Bracket::parse(&'('), Some(Bracket::OpenParen));
    assert_eq!(Bracket::parse(&')'), Some(Bracket::CloseParen));
    assert_eq!(Bracket::parse(&'{'), Some(Bracket::OpenCurly));
    assert_eq!(Bracket::parse(&'}'), Some(Bracket::CloseCurly));
    assert_eq!(Bracket::parse(&'['), Some(Bracket::OpenSquare));
    assert_eq!(Bracket::parse(&']'), Some(Bracket::CloseSquare));
    assert_eq!(Bracket::parse(&'<'), Some(Bracket::OpenAngle));
    assert_eq!(Bracket::parse(&'>'), Some(Bracket::CloseAngle));
    assert_eq!(Bracket::parse(&' '), None);
}

#[test]
fn keyword_parse_keyword() {
    assert_eq!(Keyword::parse(&"let".into()), Some(Keyword::Let));
    assert_eq!(Keyword::parse(&"fn".into()), Some(Keyword::Fn));
    assert_eq!(Keyword::parse(&"state".into()), Some(Keyword::State));
    assert_eq!(Keyword::parse(&"hello_world".into()), None);
}

#[test]
fn keyword_parse_every_spelling() {
    assert_eq!(Keyword::parse(&"if".into()), Some(Keyword::If));
    assert_eq!(Keyword::parse(&"true".into()), Some(Keyword::True));
    assert_eq!(Keyword::parse(&"false".into()), Some(Keyword::False));
    assert_eq!(Keyword::parse(&"".into()), None);
    assert_eq!(Keyword::parse(&"le".into()), None);
    assert_eq!(Keyword::parse(&"lets".into()), None);
    assert_eq!(Keyword::parse(&"Let".into()), None);
    assert_eq!(Keyword::parse(&"stato".into()), None);
    assert_eq!(Keyword::parse(&"fals\u{e9}".into()), None);
}

#[test]
fn parse_number_char() {
    assert_eq!(NumberChar::parse(&'1'), Some(NumberChar::One));
    assert_eq!(NumberChar::parse(&' '), None);
}

#[test]
fn number_char_values() {
    let digits = ['0', '1', '2', '3', '4', '5', '6', '7', '8', '9'];
    for (value, digit) in digits.iter().enumerate() {
        assert_eq!(NumberChar::parse(digit).unwrap().to_int(), value);
    }
    assert_eq!(NumberChar::parse(&'a'), None);
}

#[test]
fn operator_parse_bracket() {
    assert_eq!(Operator::parse(&'='), Some(Operator::Equal));
    assert_eq!(Operator::parse(&'/'), Some(Operator::Slash));
    assert_eq!(Operator::parse(&' '), None);
}

#[test]
fn parse_space() {
    assert_eq!(Space::parse(&' '), Some(Space::Space));
    assert_eq!(Space::parse(&'\n'), Some(Space::NewLine));
    assert_eq!(Space::parse(&'\t'), Some(Space::Tab));
}

#[test]
fn parse_punctuation() {
    assert_eq!(Punctuation::parse(','), Some(Punctuation::Comma));
    assert_eq!(Punctuation::parse('.'), Some(Punctuation::FullStop));
    assert_eq!(Punctuation::parse(';'), Some(Punctuation::Semicolon));
    assert_eq!(Punctuation::parse(' '), None);
}

#[test]
fn separator_parse_keyword() {
    assert_eq!(Separator::parse(&'\''), Some(Separator::SingleQuote));
    assert_eq!(Separator::parse(&'"'), Some(Separator::DoubleQuote));
    assert_eq!(Separator::parse(&'`'), Some(Separator::Backtick));
    assert_eq!(Separator::parse(&' '), None);
}

#[test]
fn separator_default_is_single_quote() {
    assert_eq!(Separator::default(), Separator::SingleQuote);
}

#[test]
fn tests_parse_bracket() {
    let test_str = "({[<>]}))";
    let mut lexer = lexer_on(test_str);
    let token = lexer.bump().unwrap();
    assert_eq!(
        token,
        Token {
            pos: Position { start: 0, end: 0 },
            kind: TokenKind::Bracket(Bracket::OpenParen)
        }
    );
    let char = token.pos.get(test_str);
    assert_eq!(char, Some("(".to_string()));
}

#[test]
fn tests_parse_keyword() {
    let test_str = "let if";
    let mut lexer = lexer_on(test_str);
    let token = lexer.bump().unwrap();
    assert_eq!(
        token,
        Token {
            pos: Position { start: 0, end: 2 },
            kind: TokenKind::Keyword(Keyword::Let)
        }
    );
    let char = token.pos.get(test_str);
    assert_eq!(char, Some("let".to_string()));

    lexer.bump();

    let token = lexer.bump().unwrap();
    assert_eq!(
        token,
        Token {
            pos: Position { start: 4, end: 5 },
            kind: TokenKind::Keyword(Keyword::If)
        }
    );
    let char = token.pos.get(test_str);
    assert_eq!(char, Some("if".to_string()));
}

#[test]
fn parse_separation() {
    let test_str = "'hello world'";
    let mut lexer = lexer_on(test_str);
    let token = lexer.bump().unwrap();
    assert_eq!(
        token,
        Token {
            pos: Position { start: 0, end: 12 },
            kind: TokenKind::Separation(Separation::new(
                Separator::SingleQuote,
                "hello world".to_string()
            ))
        }
    );
    let char = token.pos.get(test_str);
    assert_eq!(char, Some("'hello world'".to_string()));
}

#[test]
fn closing_quote_is_not_a_token_of_its_own() {
    let mut lexer = lexer_on("\"a'b\"c");
    let token = lexer.bump().unwrap();
    assert_eq!(
        token,
        Token::new(
            TokenKind::Separation(Separation::new(Separator::DoubleQuote, "a'b".to_string())),
            Position::new(0, 4)
        )
    );
    assert_eq!(
        lexer.bump(),
        Some(Token::new(TokenKind::Identifier("c".to_string()), Position::new(5, 5)))
    );
    assert_eq!(lexer.bump(), None);
}

#[test]
fn backtick_quotes_a_text() {
    let mut lexer = lexer_on("`x y`");
    assert_eq!(
        lexer.bump(),
        Some(Token::new(
            TokenKind::Separation(Separation::new(Separator::Backtick, "x y".to_string())),
            Position::new(0, 4)
        ))
    );
}

#[test]
fn unclosed_quote_leaves_the_lexer_in_place() {
    let mut lexer = lexer_on("ab 'cd");
    assert!(lexer.bump().is_some());
    assert!(lexer.bump().is_some());
    assert_eq!(lexer.mark(), 3);
    assert_eq!(lexer.bump(), None);
    assert_eq!(lexer.mark(), 3);
}

#[test]
fn end_of_input_gives_no_token() {
    let mut lexer = lexer_on("");
    assert_eq!(lexer.bump(), None);
    assert_eq!(lexer.mark(), 0);
    let mut lexer = lexer_on("a");
    assert!(lexer.bump().is_some());
    assert_eq!(lexer.bump(), None);
    assert_eq!(lexer.mark(), 1);
}

#[test]
fn identifier_stops_at_a_single_character_token() {
    let mut lexer = lexer_on("foo1=b'r;");
    let kinds: Vec<Token> = std::iter::from_fn(|| lexer.bump()).collect();
    assert_eq!(
        kinds,
        vec![
            Token::new(TokenKind::Identifier("foo".to_string()), Position::new(0, 2)),
            Token::new(TokenKind::NumberChar(NumberChar::One), Position::new(3, 3)),
            Token::new(TokenKind::Operator(Operator::Equal), Position::new(4, 4)),
            Token::new(TokenKind::Identifier("b'r".to_string()), Position::new(5, 7)),
            Token::new(TokenKind::Punctuation(Punctuation::Semicolon), Position::new(8, 8)),
        ]
    );
}

#[test]
fn keyword_spelling_is_never_an_identifier() {
    for (text, keyword) in [
        ("let", Keyword::Let),
        ("fn", Keyword::Fn),
        ("if", Keyword::If),
        ("state", Keyword::State),
        ("true", Keyword::True),
        ("false", Keyword::False),
    ] {
        let mut lexer = lexer_on(text);
        assert_eq!(lexer.bump().unwrap().kind, TokenKind::Keyword(keyword));
    }
    let mut lexer = lexer_on("letter");
    assert_eq!(lexer.bump().unwrap().kind, TokenKind::Identifier("letter".to_string()));
}

#[test]
fn relexing_a_token_span_gives_the_same_kind() {
    let text = "let foo = 'a b' (x1);\tbar`q`";
    let mut lexer = lexer_on(text);
    let mut count = 0;
    while let Some(token) = lexer.bump() {
        let piece = token.pos.get(text).unwrap();
        let mut again = lexer_on(&piece);
        assert_eq!(again.bump().unwrap().kind, token.kind);
        count += 1;
    }
    assert_eq!(count, 15);
}

#[test]
fn ignore_spaces_returns_the_last_space() {
    let mut lexer = lexer_on(" \n\tx");
    assert_eq!(
        lexer.ignore_spaces(),
        Some(Token::new(TokenKind::Space(Space::Tab), Position::new(2, 2)))
    );
    assert_eq!(lexer.mark(), 3);
    assert_eq!(lexer.ignore_spaces(), None);
    assert_eq!(lexer.mark(), 3);
}

#[test]
fn ignore_semicolon_skips_only_semicolons() {
    let mut lexer = lexer_on(";;,");
    assert_eq!(
        lexer.ignore_semicolon(),
        Some(Token::new(TokenKind::Punctuation(Punctuation::Semicolon), Position::new(1, 1)))
    );
    assert_eq!(lexer.mark(), 2);
    assert_eq!(lexer.ignore_semicolon(), None);
    assert_eq!(lexer.mark(), 2);
}

#[test]
fn ignore_some_stops_before_the_first_rejected_token() {
    let mut lexer = lexer_on("12ab");
    let last = lexer.ignore_some(|kind| matches!(kind, TokenKind::NumberChar(_)));
    assert_eq!(
        last,
        Some(Token::new(TokenKind::NumberChar(NumberChar::Two), Position::new(1, 1)))
    );
    assert_eq!(
        lexer.bump(),
        Some(Token::new(TokenKind::Identifier("ab".to_string()), Position::new(2, 3)))
    );
}

#[test]
fn ignore_and_ignore_n_stop_at_the_end() {
    let mut lexer = lexer_on("abcd");
    lexer.ignore();
    assert_eq!(lexer.mark(), 1);
    lexer.ignore_n(2);
    assert_eq!(lexer.mark(), 3);
    lexer.ignore_n(5);
    assert_eq!(lexer.mark(), 4);
    lexer.ignore();
    assert_eq!(lexer.mark(), 4);
}

#[test]
fn sync_takes_over_a_clone() {
    let mut lexer = lexer_on("a b");
    let mut ahead = lexer.clone();
    ahead.bump();
    ahead.bump();
    assert_eq!(lexer.mark(), 0);
    lexer.sync(ahead);
    assert_eq!(lexer.mark(), 2);
    lexer.rewind(0);
    assert_eq!(lexer.bump().unwrap().kind, TokenKind::Identifier("a".to_string()));
}

#[test]
fn parse_char_classes() {
    assert_eq!(Lexer::parse_char(&'('), Some(TokenKind::Bracket(Bracket::OpenParen)));
    assert_eq!(Lexer::parse_char(&'\n'), Some(TokenKind::Space(Space::NewLine)));
    assert_eq!(Lexer::parse_char(&','), Some(TokenKind::Punctuation(Punctuation::Comma)));
    assert_eq!(Lexer::parse_char(&'7'), Some(TokenKind::NumberChar(NumberChar::Seven)));
    assert_eq!(Lexer::parse_char(&'/'), Some(TokenKind::Operator(Operator::Slash)));
    assert_eq!(Lexer::parse_char(&'\''), None);
    assert_eq!(Lexer::parse_char(&'x'), None);
}

#[test]
fn cursor_looks_ahead_without_reading() {
    let mut cursor = Cursor::new("ab".chars().collect());
    assert_eq!(cursor.first(), Some('a'));
    assert_eq!(cursor.second(), Some('b'));
    assert_eq!(cursor.position, 0);
    assert_eq!(cursor.peek(), vec!['a', 'b']);
    assert_eq!(cursor.bump(), Some('a'));
    assert_eq!(cursor.position, 1);
    assert_eq!(cursor.first(), Some('b'));
    assert_eq!(cursor.second(), None);
    let copy = cursor.clone();
    assert_eq!(cursor.bump(), Some('b'));
    assert_eq!(cursor.bump(), None);
    assert_eq!(cursor.position, 2);
    assert_eq!(cursor.peek(), Vec::<char>::new());
    assert_eq!(copy.position, 1);
    assert_eq!(copy.first(), Some('b'));
}

#[test]
fn position_get_slices_by_characters() {
    let text = "h\u{e9}llo";
    assert_eq!(Position::new(1, 2).get(text), Some("\u{e9}l".to_string()));
    assert_eq!(Position::new(0, 4).get(text), Some(text.to_string()));
    assert_eq!(Position::new(4, 4).get(text), Some("o".to_string()));
    assert_eq!(Position::new(3, 5).get(text), None);
    assert_eq!(Position::new(5, 5).get(text), None);
    assert_eq!(Position::new(2, 0).get(text), Some("l".to_string()));
    assert_eq!(Position::new(0, 0).get(""), None);
}
