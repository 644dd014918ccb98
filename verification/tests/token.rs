use tinylang::lexer::{Keyword, NumberChar, Operator, Punctuation, Separator, Space};
use tinylang::token::utils::{deliminated, skip_spaces, space_token_checker, split_stream};
use tinylang::token::{tokenize, Bracket, BracketT, Token, TokenPos, TokenT};

#[test]
fn mod_tokenize_brackets() {
    let res = tokenize("()".to_string());
    assert_eq!(
        res.get(0).unwrap().clone(),
        Token {
            pos: TokenPos { start: 0, end: 0 },
            t: TokenT::Bracket(Bracket::parse('(').unwrap())
        }
    );
    assert_eq!(
        res.get(1).unwrap().clone(),
        Token {
            pos: TokenPos { start: 1, end: 1 },
            t: TokenT::Bracket(Bracket::parse(')').unwrap())
        }
    );
}

#[test]
fn mod_tokenize_space() {
    let res = tokenize(" \n\t".to_string());
    assert_eq!(
        res.get(0).unwrap().clone().t,
        TokenT::Space(Space::parse(&' ').unwrap())
    );
    assert_eq!(
        res.get(1).unwrap().clone().t,
        TokenT::Space(Space::parse(&'\n').unwrap())
    );
    assert_eq!(
        res.get(2).unwrap().clone().t,
        TokenT::Space(Space::parse(&'\t').unwrap())
    );
}

#[test]
fn mod_tokenize_punctuation() {
    let res = tokenize(".".to_string());
    assert_eq!(
        res.get(0).unwrap().clone().t,
        TokenT::Punctuation(Punctuation::FullStop),
    );
}

#[test]
fn tokenize_operator() {
    let res = tokenize("=/".to_string());
    assert_eq!(
        res.get(0).unwrap().clone().t,
        TokenT::Operator(Operator::Equal),
    );
    assert_eq!(
        res.get(1).unwrap().clone().t,
        TokenT::Operator(Operator::Slash),
    );
}

#[test]
fn mod_tokenize_ident() {
    let res = tokenize("hello_world".to_string());
    assert_eq!(
        res.get(0).unwrap().clone().t,
        TokenT::Ident("hello_world".into()),
    );
}

#[test]
fn tokenize_number_char() {
    let res = tokenize("12".to_string());
    assert_eq!(
        res.get(0).unwrap().clone().t,
        TokenT::NumberChar(NumberChar::One)
    );
    assert_eq!(
        res.get(1).unwrap().clone().t,
        TokenT::NumberChar(NumberChar::Two)
    );
}

#[test]
fn mod_tokenize_keyword() {
    let res = tokenize("let fn".to_string());
    assert_eq!(res.get(0).unwrap().clone().t, TokenT::Keyword(Keyword::Let),);
    assert_eq!(res.get(2).unwrap().clone().t, TokenT::Keyword(Keyword::Fn),);
}

#[test]
fn mod_tokenize_separator() {
    let res = tokenize("'hello'".to_string());
    assert_eq!(
        res.get(0).unwrap().clone().t,
        TokenT::Separator(Separator::SingleQuote),
    );
    assert_eq!(
        res.get(1).unwrap().clone().t,
        TokenT::Separated("hello".into()),
    );
    assert_eq!(
        res.get(2).unwrap().clone().t,
        TokenT::Separator(Separator::SingleQuote),
    );
}

#[test]
fn parse_bracket() {
    assert_eq!(Bracket::parse('('), Some(Bracket::Open(BracketT::Paren)));
    assert_eq!(Bracket::parse(')'), Some(Bracket::Close(BracketT::Paren)));
    assert_eq!(Bracket::parse('{'), Some(Bracket::Open(BracketT::Curly)));
    assert_eq!(Bracket::parse('}'), Some(Bracket::Close(BracketT::Curly)));
    assert_eq!(Bracket::parse('['), Some(Bracket::Open(BracketT::Square)));
    assert_eq!(Bracket::parse(']'), Some(Bracket::Close(BracketT::Square)));
    assert_eq!(Bracket::parse('<'), Some(Bracket::Open(BracketT::Angle)));
    assert_eq!(Bracket::parse('>'), Some(Bracket::Close(BracketT::Angle)));
    assert_eq!(Bracket::parse(' '), None);
}

fn token(start: usize, end: usize, t: TokenT) -> Token {
    Token { pos: TokenPos { start, end }, t }
}

#[test]
fn tokenize_whole_statement() {
    assert_eq!(
        tokenize("let x1=f(y);".to_string()),
        vec![
            token(0, 2, TokenT::Keyword(Keyword::Let)),
            token(3, 3, TokenT::Space(Space::Space)),
            token(4, 4, TokenT::Ident("x".to_string())),
            token(5, 5, TokenT::NumberChar(NumberChar::One)),
            token(6, 6, TokenT::Operator(Operator::Equal)),
            token(7, 7, TokenT::Ident("f".to_string())),
            token(8, 8, TokenT::Bracket(Bracket::Open(BracketT::Paren))),
            token(9, 9, TokenT::Ident("y".to_string())),
            token(10, 10, TokenT::Bracket(Bracket::Close(BracketT::Paren))),
            token(11, 11, TokenT::Punctuation(Punctuation::Semicolon)),
        ]
    );
    assert_eq!(tokenize(String::new()), vec![]);
}

#[test]
fn tokenize_quoted_text_positions() {
    assert_eq!(
        tokenize("a'b c'd".to_string()),
        vec![
            token(0, 0, TokenT::Ident("a".to_string())),
            token(1, 1, TokenT::Separator(Separator::SingleQuote)),
            token(1, 3, TokenT::Separated("b c".to_string())),
            token(4, 4, TokenT::Separator(Separator::SingleQuote)),
        ]
    );
    assert_eq!(
        tokenize("''".to_string()),
        vec![
            token(0, 0, TokenT::Separator(Separator::SingleQuote)),
            token(0, 0, TokenT::Separated(String::new())),
            token(0, 0, TokenT::Separator(Separator::SingleQuote)),
        ]
    );
    assert_eq!(tokenize("\"".to_string()), vec![]);
}

#[test]
fn skip_spaces_working() {
    let token_stream = tokenize("  hello_world\n\t".into());
    assert_eq!(
        skip_spaces(token_stream.clone()),
        vec![token_stream.get(2).unwrap().clone(),]
    )
}

#[test]
fn deliminated_working() {
    let token_stream = tokenize("{hello}world".into());
    assert_eq!(
        deliminated(
            token_stream.clone(),
            TokenT::Bracket(Bracket::Open(BracketT::Curly)),
            TokenT::Bracket(Bracket::Close(BracketT::Curly)),
        ),
        Some((
            vec![token_stream.get(1).unwrap().clone()],
            vec![token_stream.get(3).unwrap().clone()]
        )),
    )
}

#[test]
fn split_stream_working() {
    let token_stream = tokenize("hello/world".into());
    assert_eq!(
        split_stream(token_stream.clone(), |token| {
            token.t == TokenT::Operator(Operator::Slash)
        }),
        ((
            vec![token_stream.get(0).unwrap().clone()],
            vec![token_stream.get(2).unwrap().clone()]
        )),
    )
}

#[test]
fn skip_spaces_keeps_inner_spaces() {
    let token_stream = tokenize(" a b ".into());
    assert_eq!(skip_spaces(token_stream.clone()), token_stream[1..4].to_vec());
    assert_eq!(skip_spaces(tokenize(" \n ".into())), vec![]);
    assert_eq!(skip_spaces(vec![]), vec![]);
}

#[test]
fn deliminated_edge_cases() {
    let open = || TokenT::Bracket(Bracket::Open(BracketT::Paren));
    let close = || TokenT::Bracket(Bracket::Close(BracketT::Paren));
    let token_stream = tokenize("(a(b)c)d".into());
    // the first closing token ends the part between, whatever opened in between
    assert_eq!(
        deliminated(token_stream.clone(), open(), close()),
        Some((token_stream[1..4].to_vec(), token_stream[5..].to_vec()))
    );
    let unclosed = tokenize("(a b".into());
    assert_eq!(
        deliminated(unclosed.clone(), open(), close()),
        Some((unclosed[1..].to_vec(), vec![]))
    );
    assert_eq!(deliminated(tokenize("a(b)".into()), open(), close()), None);
    assert_eq!(deliminated(vec![], open(), close()), None);
}

#[test]
fn split_stream_drops_every_hit_behind_the_first() {
    let token_stream = tokenize("a/b/c".into());
    assert_eq!(
        split_stream(token_stream.clone(), |token| token.t == TokenT::Operator(Operator::Slash)),
        (
            vec![token_stream[0].clone()],
            vec![token_stream[2].clone(), token_stream[4].clone()]
        )
    );
    assert_eq!(
        split_stream(token_stream.clone(), space_token_checker),
        (token_stream.clone(), vec![])
    );
}

#[test]
fn space_token_checker_sees_spaces_only() {
    let token_stream = tokenize(" a".into());
    assert!(space_token_checker(token_stream[0].clone()));
    assert!(!space_token_checker(token_stream[1].clone()));
}

#[test]
fn token_kinds_compare_by_value() {
    assert!(TokenT::Ident("a".into()).same(&TokenT::Ident("a".into())));
    assert!(!TokenT::Ident("a".into()).same(&TokenT::Ident("b".into())));
    assert!(!TokenT::Ident("a".into()).same(&TokenT::Separated("a".into())));
    assert!(TokenT::Space(Space::Tab).same(&TokenT::Space(Space::Tab)));
    assert!(!TokenT::Space(Space::Tab).same(&TokenT::Space(Space::Space)));
}

#[test]
fn parse_keyword() {
    assert_eq!(Keyword::parse(&"let".into()), Some(Keyword::Let));
    assert_eq!(Keyword::parse(&"fn".into()), Some(Keyword::Fn));
    assert_eq!(Keyword::parse(&"state".into()), Some(Keyword::State));
    assert_eq!(Keyword::parse(&"hello_world".into()), None);
}

#[test]
fn tokenize_brackets() {
    let res = tokenize("()".to_string());
    assert_eq!(
        res.get(0).unwrap().clone(),
        Token {
            pos: TokenPos { start: 0, end: 0 },
            t: TokenT::Bracket(Bracket::parse('(').unwrap())
        }
    );
    assert_eq!(
        res.get(1).unwrap().clone(),
        Token {
            pos: TokenPos { start: 1, end: 1 },
            t: TokenT::Bracket(Bracket::parse(')').unwrap())
        }
    );
}

#[test]
fn tokenize_space() {
    let res = tokenize(" \n\t".to_string());
    assert_eq!(
        res.get(0).unwrap().clone().t,
        TokenT::Space(Space::parse(&' ').unwrap())
    );
    assert_eq!(
        res.get(1).unwrap().clone().t,
        TokenT::Space(Space::parse(&'\n').unwrap())
    );
    assert_eq!(
        res.get(2).unwrap().clone().t,
        TokenT::Space(Space::parse(&'\t').unwrap())
    );
}

#[test]
fn tokenize_punctuation() {
    let res = tokenize(".".to_string());
    assert_eq!(
        res.get(0).unwrap().clone().t,
        TokenT::Punctuation(Punctuation::FullStop),
    );
}

#[test]
fn tokenize_ident() {
    let res = tokenize("hello_world".to_string());
    assert_eq!(
        res.get(0).unwrap().clone().t,
        TokenT::Ident("hello_world".into()),
    );
}

#[test]
fn tokenize_keyword() {
    let res = tokenize("let fn".to_string());
    assert_eq!(res.get(0).unwrap().clone().t, TokenT::Keyword(Keyword::Let),);
    assert_eq!(res.get(2).unwrap().clone().t, TokenT::Keyword(Keyword::Fn),);
}

#[test]
fn tokenize_separator() {
    let res = tokenize("'hello'".to_string());
    assert_eq!(
        res.get(0).unwrap().clone().t,
        TokenT::Separator(Separator::SingleQuote),
    );
    assert_eq!(
        res.get(1).unwrap().clone().t,
        TokenT::Separated("hello".into()),
    );
    assert_eq!(
        res.get(2).unwrap().clone().t,
        TokenT::Separator(Separator::SingleQuote),
    );
}
