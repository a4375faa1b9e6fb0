//! The parser of expressions, by precedence climbing.
//!
//! From the loosest to the tightest level: `=` and `!=`; `<`, `>`, `<=` and
//! `>=`; `+` and `-`; `*` and `/`; then the atoms. Every level associates to
//! the left.

use crate::parser::ast::{
    BinaryExpr, BinaryOperation, Expr, ExprView, LiteralExpr, LiteralView, operation_of,
};
use crate::parser::lexer::token::{Token, TokenView};
use crate::parser::parse::{Input, ParseError, ParseHelper};
use vstd::prelude::*;
use vstd::string::StringExecFns;

verus! {

/// Whether `t` is an operator of the level `level`.
pub open spec fn is_operator(level: nat, t: TokenView) -> bool {
    if level == 0 {
        t is Equal || t is NotEqual
    } else if level == 1 {
        t is LessThan || t is GreaterThan || t is LessThanOrEqual || t is GreaterThanOrEqual
    } else if level == 2 {
        t is Plus || t is Minus
    } else if level == 3 {
        t is Star || t is Slash
    } else {
        false
    }
}

/// The number of levels that are tighter than `level`.
pub open spec fn tighter_levels(level: nat) -> nat {
    if level < 4 {
        (4 - level) as nat
    } else {
        0
    }
}

/// The expression of the level `level` that the tokens `ts` start with, and
/// the tokens after it. The level 4 is that of the atoms.
pub open spec fn expr_at(level: nat, ts: Seq<TokenView>) -> Option<(ExprView, Seq<TokenView>)>
    decreases ts.len(), tighter_levels(level), 1nat,
{
    if level >= 4 {
        atom(ts)
    } else {
        match expr_at(level + 1, ts) {
            Some((left, rest)) => if rest.len() <= ts.len() {
                operands(level, left, rest)
            } else {
                None
            },
            None => None,
        }
    }
}

/// The expression of the level `level` that starts with the operand `left`
/// and goes on with the tokens `ts`, and the tokens after it.
pub open spec fn operands(level: nat, left: ExprView, ts: Seq<TokenView>) -> Option<
    (ExprView, Seq<TokenView>),
>
    decreases ts.len(), tighter_levels(level), 0nat,
{
    if level < 4 && ts.len() > 0 && is_operator(level, ts[0]) {
        match expr_at(level + 1, ts.skip(1)) {
            Some((right, rest)) => if rest.len() < ts.len() {
                operands(
                    level,
                    ExprView::Binary(
                        Box::new(left),
                        operation_of(ts[0]).unwrap(),
                        Box::new(right),
                    ),
                    rest,
                )
            } else {
                None
            },
            None => None,
        }
    } else {
        Some((left, ts))
    }
}

/// The atom that the tokens `ts` start with, and the tokens after it: an
/// identifier, an integer, `TRUE`, `FALSE`, or an expression in parentheses.
pub open spec fn atom(ts: Seq<TokenView>) -> Option<(ExprView, Seq<TokenView>)>
    decreases ts.len(), 0nat, 0nat,
{
    if ts.len() == 0 {
        None
    } else {
        match ts[0] {
            TokenView::Identifier(id) => Some(
                (ExprView::Literal(LiteralView::Identifier(id)), ts.skip(1)),
            ),
            TokenView::Integer(n) => Some((ExprView::Literal(LiteralView::Integer(n)), ts.skip(1))),
            TokenView::True => Some((ExprView::Literal(LiteralView::Boolean(true)), ts.skip(1))),
            TokenView::False => Some((ExprView::Literal(LiteralView::Boolean(false)), ts.skip(1))),
            TokenView::LeftParen => match expr_at(0, ts.skip(1)) {
                Some((inner, rest)) => if rest.len() > 0 && rest[0] is RightParen {
                    Some((inner, rest.skip(1)))
                } else {
                    None
                },
                None => None,
            },
            _ => None,
        }
    }
}

/// The expression that the tokens `ts` start with, and the tokens after it.
pub open spec fn expression(ts: Seq<TokenView>) -> Option<(ExprView, Seq<TokenView>)> {
    expr_at(0, ts)
}

/// An expression takes at least one token, and what is left is shorter.
pub proof fn lemma_expr_consumes(level: nat, ts: Seq<TokenView>)
    ensures
        expr_at(level, ts) is Some ==> expr_at(level, ts).unwrap().1.len() < ts.len(),
        atom(ts) is Some ==> atom(ts).unwrap().1.len() < ts.len(),
    decreases ts.len(), tighter_levels(level), 1nat,
{
    if ts.len() > 0 {
        if ts[0] is LeftParen {
            lemma_expr_consumes(0, ts.skip(1));
        }
    }
    if level < 4 {
        lemma_expr_consumes(level + 1, ts);
        match expr_at(level + 1, ts) {
            Some((left, rest)) => {
                lemma_operands_consume(level, left, rest);
            },
            None => {},
        }
    }
}

/// Further operands leave no more tokens than there were.
pub proof fn lemma_operands_consume(level: nat, left: ExprView, ts: Seq<TokenView>)
    ensures
        operands(level, left, ts) is Some ==> operands(level, left, ts).unwrap().1.len()
            <= ts.len(),
    decreases ts.len(), tighter_levels(level), 0nat,
{
    if level < 4 && ts.len() > 0 && is_operator(level, ts[0]) {
        lemma_expr_consumes(level + 1, ts.skip(1));
        match expr_at(level + 1, ts.skip(1)) {
            Some((right, rest)) => {
                lemma_operands_consume(
                    level,
                    ExprView::Binary(
                        Box::new(left),
                        operation_of(ts[0]).unwrap(),
                        Box::new(right),
                    ),
                    rest,
                );
            },
            None => {},
        }
    }
}

/// The parser of expressions.
pub struct Parser {}

fn operator_at(level: u8, token: Option<&Token>) -> (r: bool)
    ensures
        r == (token is Some && is_operator(level as nat, token.unwrap()@)),
        r ==> operation_of(token.unwrap()@) is Some,
{
    match token {
        Some(Token::Equal) | Some(Token::NotEqual) => level == 0,
        Some(Token::LessThan)
        | Some(Token::GreaterThan)
        | Some(Token::LessThanOrEqual)
        | Some(Token::GreaterThanOrEqual) => level == 1,
        Some(Token::Plus) | Some(Token::Minus) => level == 2,
        Some(Token::Star) | Some(Token::Slash) => level == 3,
        _ => false,
    }
}

impl Parser {
    /// Reads an expression.
    pub fn expr(input: &mut Input) -> (r: Result<Expr, ParseError>)
        ensures
            match expression(old(input)@) {
                Some((e, rest)) => r is Ok && r.unwrap()@ == e && final(input)@ == rest,
                None => r is Err,
            },
    {
        Parser::l0_expr(input)
    }

    /// Reads an expression of equalities and inequalities.
    pub fn l0_expr(input: &mut Input) -> (r: Result<Expr, ParseError>)
        ensures
            match expr_at(0, old(input)@) {
                Some((e, rest)) => r is Ok && r.unwrap()@ == e && final(input)@ == rest,
                None => r is Err,
            },
    {
        Parser::level_expr(input, 0)
    }

    /// Reads an expression of comparisons.
    pub fn l1_expr(input: &mut Input) -> (r: Result<Expr, ParseError>)
        ensures
            match expr_at(1, old(input)@) {
                Some((e, rest)) => r is Ok && r.unwrap()@ == e && final(input)@ == rest,
                None => r is Err,
            },
    {
        Parser::level_expr(input, 1)
    }

    /// Reads an expression of sums and differences.
    pub fn l2_expr(input: &mut Input) -> (r: Result<Expr, ParseError>)
        ensures
            match expr_at(2, old(input)@) {
                Some((e, rest)) => r is Ok && r.unwrap()@ == e && final(input)@ == rest,
                None => r is Err,
            },
    {
        Parser::level_expr(input, 2)
    }

    /// Reads an expression of products and quotients.
    pub fn l3_expr(input: &mut Input) -> (r: Result<Expr, ParseError>)
        ensures
            match expr_at(3, old(input)@) {
                Some((e, rest)) => r is Ok && r.unwrap()@ == e && final(input)@ == rest,
                None => r is Err,
            },
    {
        Parser::level_expr(input, 3)
    }

    #[verifier::loop_isolation(false)]
    fn level_expr(input: &mut Input, level: u8) -> (r: Result<Expr, ParseError>)
        requires
            level <= 4,
        ensures
            match expr_at(level as nat, old(input)@) {
                Some((e, rest)) => r is Ok && r.unwrap()@ == e && final(input)@ == rest,
                None => r is Err,
            },
        decreases old(input)@.len(), tighter_levels(level as nat), 1nat,
    {
        if level >= 4 {
            return Parser::l4_expr(input);
        }
        proof {
            lemma_expr_consumes(level as nat + 1, old(input)@);
        }
        let mut curr = Parser::level_expr(input, level + 1)?;
        while operator_at(level, input.peek())
            invariant
                input@.len() <= old(input)@.len(),
                expr_at(level as nat, old(input)@) == operands(level as nat, curr@, input@),
            decreases input@.len(),
        {
            let ghost before = input@;
            let tok = input.next().unwrap();
            proof {
                lemma_expr_consumes(level as nat + 1, before.skip(1));
            }
            let right = Parser::level_expr(input, level + 1)?;
            curr =
            Expr::Binary(
                BinaryExpr {
                    left: Box::new(curr),
                    op: BinaryOperation::from(tok),
                    right: Box::new(right),
                },
            );
        }
        Ok(curr)
    }

    /// Reads an atom.
    pub fn l4_expr(input: &mut Input) -> (r: Result<Expr, ParseError>)
        ensures
            match atom(old(input)@) {
                Some((e, rest)) => r is Ok && r.unwrap()@ == e && final(input)@ == rest,
                None => r is Err,
            },
        decreases old(input)@.len(), 0nat, 0nat,
    {
        match input.next() {
            Some(Token::Identifier(id)) => Ok(Expr::Literal(LiteralExpr::Identifier(id))),
            Some(Token::Integer(num)) => Ok(Expr::Literal(LiteralExpr::Integer(num))),
            Some(Token::True) => Ok(Expr::Literal(LiteralExpr::Boolean(true))),
            Some(Token::False) => Ok(Expr::Literal(LiteralExpr::Boolean(false))),
            Some(Token::LeftParen) => {
                let expr = Parser::level_expr(input, 0)?;
                ParseHelper::match_token(Token::RightParen, input.next())?;
                Ok(expr)
            },
            Some(unexpected) => Err(
                ParseError::token_mismatch(
                    Token::Identifier(String::from_str("<expression>")),
                    unexpected,
                ),
            ),
            None => Err(
                ParseError::unexpected_eof(Token::Identifier(String::from_str("<expression>"))),
            ),
        }
    }
}

} // verus!
