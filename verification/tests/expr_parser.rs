use relational_engine::parser::ast::{BinaryExpr, BinaryOperation, Expr, LiteralExpr};
use relational_engine::parser::expr_parser::Parser;
use relational_engine::parser::lexer::token::Token;
use relational_engine::parser::parse::Input;

fn integer(n: i32) -> Expr {
    Expr::Literal(LiteralExpr::Integer(n))
}

fn binary(left: Expr, op: BinaryOperation, right: Expr) -> Expr {
    Expr::Binary(BinaryExpr {
        left: Box::new(left),
        op,
        right: Box::new(right),
    })
}

#[test]
fn parse_simple_addition() {
    let mut input = Input::new(vec![Token::Integer(1), Token::Plus, Token::Integer(2)]);

    let e = Parser::expr(&mut input).unwrap();
    assert_eq!(
        e,
        Expr::Binary(BinaryExpr {
            left: Box::new(Expr::Literal(LiteralExpr::Integer(1))),
            op: BinaryOperation::Addition,
            right: Box::new(Expr::Literal(LiteralExpr::Integer(2))),
        })
    );
}

#[test]
fn parse_simple_multiplication() {
    let mut input = Input::new(vec![Token::Integer(1), Token::Slash, Token::Integer(2)]);

    let e = Parser::expr(&mut input).unwrap();
    assert_eq!(
        e,
        Expr::Binary(BinaryExpr {
            left: Box::new(Expr::Literal(LiteralExpr::Integer(1))),
            op: BinaryOperation::Division,
            right: Box::new(Expr::Literal(LiteralExpr::Integer(2))),
        })
    );
}

#[test]
fn parse_precedence_arithmetic() {
    let mut input = Input::new(vec![
        Token::Integer(1),
        Token::Plus,
        Token::Integer(2),
        Token::Star,
        Token::Integer(3),
    ]);

    let e = Parser::expr(&mut input).unwrap();
    assert_eq!(
        e,
        Expr::Binary(BinaryExpr {
            left: Box::new(Expr::Literal(LiteralExpr::Integer(1))),
            op: BinaryOperation::Addition,
            right: Box::new(Expr::Binary(BinaryExpr {
                left: Box::new(Expr::Literal(LiteralExpr::Integer(2))),
                op: BinaryOperation::Multiplication,
                right: Box::new(Expr::Literal(LiteralExpr::Integer(3))),
            }))
        })
    );
}

#[test]
fn parse_arithmetic_left_associativity() {
    let mut input = Input::new(vec![
        Token::Integer(1),
        Token::Plus,
        Token::Integer(2),
        Token::Plus,
        Token::Integer(3),
    ]);

    let e = Parser::expr(&mut input).unwrap();
    assert_eq!(
        e,
        Expr::Binary(BinaryExpr {
            left: Box::new(Expr::Binary(BinaryExpr {
                left: Box::new(Expr::Literal(LiteralExpr::Integer(1))),
                op: BinaryOperation::Addition,
                right: Box::new(Expr::Literal(LiteralExpr::Integer(2))),
            })),
            op: BinaryOperation::Addition,
            right: Box::new(Expr::Literal(LiteralExpr::Integer(3))),
        })
    );
}

#[test]
fn parse_equality_left_associativity() {
    let mut input = Input::new(vec![
        Token::Integer(1),
        Token::LessThan,
        Token::Integer(2),
        Token::GreaterThanOrEqual,
        Token::Integer(3),
    ]);

    let e = Parser::expr(&mut input).unwrap();
    assert_eq!(
        e,
        Expr::Binary(BinaryExpr {
            left: Box::new(Expr::Binary(BinaryExpr {
                left: Box::new(Expr::Literal(LiteralExpr::Integer(1))),
                op: BinaryOperation::LessThan,
                right: Box::new(Expr::Literal(LiteralExpr::Integer(2))),
            })),
            op: BinaryOperation::GreaterThanOrEqual,
            right: Box::new(Expr::Literal(LiteralExpr::Integer(3))),
        })
    );
}

#[test]
fn parse_parenthesis() {
    let mut input = Input::new(vec![
        Token::LeftParen,
        Token::Integer(1),
        Token::Plus,
        Token::Integer(2),
        Token::RightParen,
        Token::Star,
        Token::Integer(3),
    ]);

    let e = Parser::expr(&mut input).unwrap();
    assert_eq!(
        e,
        Expr::Binary(BinaryExpr {
            left: Box::new(Expr::Binary(BinaryExpr {
                left: Box::new(Expr::Literal(LiteralExpr::Integer(1))),
                op: BinaryOperation::Addition,
                right: Box::new(Expr::Literal(LiteralExpr::Integer(2))),
            })),
            op: BinaryOperation::Multiplication,
            right: Box::new(Expr::Literal(LiteralExpr::Integer(3))),
        })
    );
}

#[test]
fn equality_is_looser_than_comparison() {
    // a = b < c groups as a = (b < c)
    let mut input = Input::new(vec![
        Token::Identifier("a".to_owned()),
        Token::Equal,
        Token::Identifier("b".to_owned()),
        Token::LessThan,
        Token::Identifier("c".to_owned()),
    ]);
    let e = Parser::expr(&mut input).unwrap();
    assert_eq!(
        e,
        binary(
            Expr::Literal(LiteralExpr::Identifier("a".to_owned())),
            BinaryOperation::Equal,
            binary(
                Expr::Literal(LiteralExpr::Identifier("b".to_owned())),
                BinaryOperation::LessThan,
                Expr::Literal(LiteralExpr::Identifier("c".to_owned())),
            ),
        )
    );
}

#[test]
fn not_equal_is_an_operator() {
    let mut input = Input::new(vec![Token::True, Token::NotEqual, Token::False, Token::Semicolon]);
    let e = Parser::expr(&mut input).unwrap();
    assert_eq!(
        e,
        binary(
            Expr::Literal(LiteralExpr::Boolean(true)),
            BinaryOperation::NotEqual,
            Expr::Literal(LiteralExpr::Boolean(false)),
        )
    );
    assert_eq!(input.peek(), Some(&Token::Semicolon));
}

#[test]
fn subtraction_and_division_associate_to_the_left() {
    let mut input = Input::new(vec![
        Token::Integer(8),
        Token::Minus,
        Token::Integer(4),
        Token::Minus,
        Token::Integer(2),
        Token::Slash,
        Token::Integer(2),
        Token::Slash,
        Token::Integer(1),
    ]);
    let e = Parser::expr(&mut input).unwrap();
    assert_eq!(
        e,
        binary(
            binary(integer(8), BinaryOperation::Subtraction, integer(4)),
            BinaryOperation::Subtraction,
            binary(
                binary(integer(2), BinaryOperation::Division, integer(2)),
                BinaryOperation::Division,
                integer(1)
            ),
        )
    );
}

#[test]
fn expression_errors() {
    assert!(Parser::expr(&mut Input::new(vec![])).is_err());
    assert!(Parser::expr(&mut Input::new(vec![Token::Plus])).is_err());
    assert!(Parser::expr(&mut Input::new(vec![Token::Integer(1), Token::Plus])).is_err());
    assert!(Parser::expr(&mut Input::new(vec![Token::Minus, Token::Integer(1)])).is_err());
    assert!(Parser::expr(&mut Input::new(vec![Token::StringLiteral("a".to_owned())])).is_err());
    // a parenthesis must be closed
    assert!(Parser::expr(&mut Input::new(vec![
        Token::LeftParen,
        Token::Integer(1),
        Token::Semicolon
    ]))
    .is_err());
    assert!(Parser::expr(&mut Input::new(vec![Token::LeftParen, Token::Integer(1)])).is_err());
}

#[test]
fn levels_read_their_own_operators() {
    let tokens = || vec![Token::Integer(1), Token::Plus, Token::Integer(2), Token::Equal, Token::Integer(3)];
    let mut input = Input::new(tokens());
    assert_eq!(Parser::l4_expr(&mut input).unwrap(), integer(1));
    assert_eq!(input.peek(), Some(&Token::Plus));
    let mut input = Input::new(tokens());
    assert_eq!(Parser::l3_expr(&mut input).unwrap(), integer(1));
    let mut input = Input::new(tokens());
    assert_eq!(
        Parser::l2_expr(&mut input).unwrap(),
        binary(integer(1), BinaryOperation::Addition, integer(2))
    );
    assert_eq!(input.peek(), Some(&Token::Equal));
    let mut input = Input::new(tokens());
    assert_eq!(
        Parser::l1_expr(&mut input).unwrap(),
        binary(integer(1), BinaryOperation::Addition, integer(2))
    );
    let mut input = Input::new(tokens());
    assert_eq!(
        Parser::l0_expr(&mut input).unwrap(),
        binary(
            binary(integer(1), BinaryOperation::Addition, integer(2)),
            BinaryOperation::Equal,
            integer(3)
        )
    );
    assert_eq!(input.next(), None);
}

#[test]
fn operation_of_a_token() {
    assert_eq!(BinaryOperation::from(Token::NotEqual), BinaryOperation::NotEqual);
    assert_eq!(BinaryOperation::from(Token::Star), BinaryOperation::Multiplication);
    assert_eq!(
        BinaryOperation::from(Token::GreaterThanOrEqual),
        BinaryOperation::GreaterThanOrEqual
    );
}
