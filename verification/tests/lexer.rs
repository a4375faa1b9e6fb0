use relational_engine::parser::lexer::token::Token;
use relational_engine::parser::lexer::Lexer;

#[test]
fn one_char_token() {
    let l = Lexer::new();
    let tokens = l.scan("(),;*+-/=<>").unwrap();
    assert_eq!(
        tokens,
        vec![
            Token::LeftParen,
            Token::RightParen,
            Token::Comma,
            Token::Semicolon,
            Token::Star,
            Token::Plus,
            Token::Minus,
            Token::Slash,
            Token::Equal,
            Token::LessThan,
            Token::GreaterThan,
            Token::EOF,
        ]
    );
}

#[test]
fn two_char_token() {
    let l = Lexer::new();
    let tokens = l.scan("<=>=!=").unwrap();
    assert_eq!(
        tokens,
        vec![
            Token::LessThanOrEqual,
            Token::GreaterThanOrEqual,
            Token::NotEqual,
            Token::EOF,
        ]
    );
}

#[test]
fn identifiers() {
    let l = Lexer::new();
    let tokens = l.scan("cat bat a rat foo.bar qux").unwrap();
    assert_eq!(
        tokens,
        vec![
            Token::Identifier("cat".to_owned()),
            Token::Identifier("bat".to_owned()),
            Token::Identifier("a".to_owned()),
            Token::Identifier("rat".to_owned()),
            Token::Identifier("foo.bar".to_owned()),
            Token::Identifier("qux".to_owned()),
            Token::EOF,
        ]
    );

    assert!(l.scan("cat bat foo. bar").is_err());
}

#[test]
fn keywords() {
    let l = Lexer::new();
    let tokens = l.scan("create insert INSERT table CREATE select from where integer varchar primary KEy into values as inner join on true false").unwrap();
    assert_eq!(
        tokens,
        vec![
            Token::Create,
            Token::Insert,
            Token::Insert,
            Token::Table,
            Token::Create,
            Token::Select,
            Token::From,
            Token::Where,
            Token::KeywordInteger,
            Token::KeywordVarchar,
            Token::KeywordPrimaryKey,
            Token::KeywordInto,
            Token::KeywordValues,
            Token::KeywordAs,
            Token::KeywordInnerJoin,
            Token::KeywordOn,
            Token::True,
            Token::False,
            Token::EOF,
        ]
    );
}

#[test]
fn numbers() {
    let l = Lexer::new();
    let tokens = l.scan("1 2 34 5").unwrap();
    assert_eq!(
        tokens,
        vec![
            Token::Integer(1),
            Token::Integer(2),
            Token::Integer(34),
            Token::Integer(5),
            Token::EOF,
        ]
    );
}

#[test]
fn strings() {
    let l = Lexer::new();
    let tokens = l.scan("id 'id' 'ab'").unwrap();
    assert_eq!(
        tokens,
        vec![
            Token::Identifier("id".to_owned()),
            Token::StringLiteral("id".to_owned()),
            Token::StringLiteral("ab".to_owned()),
            Token::EOF,
        ]
    );
}

#[test]
fn empty_text_is_only_eof() {
    let l = Lexer::new();
    assert_eq!(l.scan("").unwrap(), vec![Token::EOF]);
    assert_eq!(l.scan(" \t\n\u{2003} ").unwrap(), vec![Token::EOF]);
}

#[test]
fn unterminated_string_is_an_error() {
    let l = Lexer::new();
    assert!(l.scan("'abc").is_err());
    assert!(l.scan("'").is_err());
    assert_eq!(
        l.scan("''").unwrap(),
        vec![Token::StringLiteral("".to_owned()), Token::EOF]
    );
}

#[test]
fn bang_needs_equal() {
    let l = Lexer::new();
    assert!(l.scan("!").is_err());
    assert!(l.scan("! =").is_err());
    assert_eq!(l.scan("!=").unwrap(), vec![Token::NotEqual, Token::EOF]);
}

#[test]
fn invalid_character_is_an_error() {
    let l = Lexer::new();
    let e = l.scan("select # from t;").unwrap_err();
    assert_eq!(e.details, "invalid character '#' at position 7");
    assert_eq!(e.to_string(), "invalid character '#' at position 7");
    let e = l.scan("\u{e9} 'abc").unwrap_err();
    assert_eq!(e.details, "wanted '\'', got EOF at position 2");
    let e = l.scan("a 12345678901").unwrap_err();
    assert_eq!(e.details, "integer literal is too large at position 2");
    assert!(l.scan("a.b.c").is_err());
    assert!(l.scan("a_b").is_err());
}

#[test]
fn comparison_tokens_prefer_one_character() {
    let l = Lexer::new();
    assert_eq!(
        l.scan("< = <= < >").unwrap(),
        vec![
            Token::LessThan,
            Token::Equal,
            Token::LessThanOrEqual,
            Token::LessThan,
            Token::GreaterThan,
            Token::EOF
        ]
    );
}

#[test]
fn integer_literal_bounds() {
    let l = Lexer::new();
    assert_eq!(
        l.scan("2147483647").unwrap(),
        vec![Token::Integer(2147483647), Token::EOF]
    );
    assert_eq!(l.scan("007").unwrap(), vec![Token::Integer(7), Token::EOF]);
    assert!(l.scan("2147483648").is_err());
    assert!(l.scan("99999999999999999999").is_err());
}

#[test]
fn two_word_keywords_need_both_words() {
    let l = Lexer::new();
    assert_eq!(
        l.scan("primary keys").unwrap(),
        vec![
            Token::Identifier("primary".to_owned()),
            Token::Identifier("keys".to_owned()),
            Token::EOF
        ]
    );
    assert_eq!(
        l.scan("PRIMARY \n KEY,").unwrap(),
        vec![Token::KeywordPrimaryKey, Token::Comma, Token::EOF]
    );
    assert_eq!(
        l.scan("inner").unwrap(),
        vec![Token::Identifier("inner".to_owned()), Token::EOF]
    );
    assert_eq!(
        l.scan("Inner Join x").unwrap(),
        vec![
            Token::KeywordInnerJoin,
            Token::Identifier("x".to_owned()),
            Token::EOF
        ]
    );
}

#[test]
fn identifiers_keep_their_case() {
    let l = Lexer::new();
    assert_eq!(
        l.scan("Person SELECT sElEcT selects").unwrap(),
        vec![
            Token::Identifier("Person".to_owned()),
            Token::Select,
            Token::Select,
            Token::Identifier("selects".to_owned()),
            Token::EOF
        ]
    );
}

#[test]
fn alphabetic_letters_beyond_ascii_are_identifiers() {
    let l = Lexer::new();
    assert_eq!(
        l.scan("größe.é").unwrap(),
        vec![Token::Identifier("größe.é".to_owned()), Token::EOF]
    );
}

#[test]
fn token_text() {
    assert_eq!(Token::KeywordPrimaryKey.to_string(), "PRIMARY KEY");
    assert_eq!(Token::Identifier("a".to_owned()).to_string(), "Identifier(a)");
    assert_eq!(Token::LessThanOrEqual.to_string(), "<=");
    assert!(Token::Integer(3).same_as(&Token::Integer(3)));
    assert!(!Token::Integer(3).same_as(&Token::Integer(4)));
    assert!(!Token::StringLiteral("a".to_owned()).same_as(&Token::Identifier("a".to_owned())));
}

#[test]
fn must_wants_its_character() {
    assert!(Lexer::must('=', Some('=')).is_ok());
    assert!(Lexer::must('=', Some('x')).is_err());
    assert!(Lexer::must('=', None).is_err());
}

#[test]
fn scan_helpers_measure_runs() {
    let input: Vec<char> = "  ab1".chars().collect();
    assert_eq!(Lexer::scan_whitespace(&input, 0), 2);
    assert_eq!(Lexer::scan_whitespace(&input, 2), 0);
    assert_eq!(Lexer::scan_identifier(&input, 2), Some("ab".to_owned()));
    assert_eq!(Lexer::scan_identifier(&input, 4), None);
    let l = Lexer::new();
    let (token, length) = l.scan_token(&input, 2).unwrap();
    assert_eq!(token, Token::Identifier("ab".to_owned()));
    assert_eq!(length, 2);
}
