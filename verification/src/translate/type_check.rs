//! The types of expressions, projections and join conditions.

use crate::parser::ast::{
    BinaryOperation, Expr, ExprView, LiteralExpr, LiteralView, text_views, WhereClause,
    WhereClauseView,
};
use crate::storage::storage_manager::{
    attribute_views, AttributeName, Attributes, AttributesView, lookup,
};
use crate::storage::types::AttributeType;
use crate::translate::error::{TranslateError, TranslateErrorView};
use vstd::prelude::*;
use vstd::string::StringExecFns;

verus! {

/// The type of `left op right` where both operands have the type `operands`,
/// or `None` where `op` is not defined on that type. Integers have arithmetic
/// and all comparisons; texts and booleans have equality and inequality only.
pub open spec fn operation_type(op: BinaryOperation, operands: AttributeType) -> Option<
    AttributeType,
> {
    match operands {
        AttributeType::Integer => match op {
            BinaryOperation::Addition
            | BinaryOperation::Subtraction
            | BinaryOperation::Multiplication
            | BinaryOperation::Division => Some(AttributeType::Integer),
            _ => Some(AttributeType::Boolean),
        },
        _ => match op {
            BinaryOperation::Equal | BinaryOperation::NotEqual => Some(AttributeType::Boolean),
            _ => None,
        },
    }
}

/// The type of `expr` where an identifier has the type of the first attribute
/// of that name in `env`. The operands of an operation must have the same
/// type; the left operand is checked first, and the first failure is the result.
pub open spec fn expr_type(expr: ExprView, env: AttributesView) -> Result<
    AttributeType,
    TranslateErrorView,
>
    decreases expr,
{
    match expr {
        ExprView::Literal(LiteralView::Integer(_)) => Ok(AttributeType::Integer),
        ExprView::Literal(LiteralView::Boolean(_)) => Ok(AttributeType::Boolean),
        ExprView::Literal(LiteralView::String(_)) => Ok(AttributeType::Text),
        ExprView::Literal(LiteralView::Identifier(id)) => match lookup(env, id) {
            Some(t) => Ok(t),
            None => Err(TranslateErrorView::NoSuchAttribute(id)),
        },
        ExprView::Binary(left, op, right) => match expr_type(*left, env) {
            Err(e) => Err(e),
            Ok(l) => match expr_type(*right, env) {
                Err(e) => Err(e),
                Ok(r) => if l != r {
                    Err(TranslateErrorView::TypeError)
                } else {
                    match operation_type(op, l) {
                        Some(t) => Ok(t),
                        None => Err(TranslateErrorView::TypeError),
                    }
                },
            },
        },
    }
}

/// The attributes called `names`, in the order of `names`, each with its type
/// in `env`; or the first name that `env` does not have.
pub open spec fn projected(names: Seq<Seq<char>>, env: AttributesView) -> Result<
    AttributesView,
    TranslateErrorView,
>
    decreases names.len(),
{
    if names.len() == 0 {
        Ok(Seq::empty())
    } else {
        match lookup(env, names[0]) {
            None => Err(TranslateErrorView::NoSuchAttribute(names[0])),
            Some(t) => match projected(names.skip(1), env) {
                Err(e) => Err(e),
                Ok(rest) => Ok(seq![(names[0], t)] + rest),
            },
        }
    }
}

/// The condition of a join: it must be there and be a boolean.
pub open spec fn join_condition(predicate: WhereClauseView, env: AttributesView) -> Result<
    ExprView,
    TranslateErrorView,
> {
    match predicate {
        WhereClauseView::Absent => Err(TranslateErrorView::InvalidArguments),
        WhereClauseView::Expr(expr) => match expr_type(expr, env) {
            Err(e) => Err(e),
            Ok(AttributeType::Boolean) => Ok(expr),
            Ok(_) => Err(TranslateErrorView::TypeError),
        },
    }
}

fn operation_result(op: BinaryOperation, operands: AttributeType) -> (r: Option<AttributeType>)
    ensures
        r == operation_type(op, operands),
{
    match operands {
        AttributeType::Integer => match op {
            BinaryOperation::Addition
            | BinaryOperation::Subtraction
            | BinaryOperation::Multiplication
            | BinaryOperation::Division => Some(AttributeType::Integer),
            _ => Some(AttributeType::Boolean),
        },
        _ => match op {
            BinaryOperation::Equal | BinaryOperation::NotEqual => Some(AttributeType::Boolean),
            _ => None,
        },
    }
}

/// The type of `expr` against the attributes `ctx`.
pub fn type_check_expr(expr: &Expr, ctx: &Attributes) -> (r: Result<AttributeType, TranslateError>)
    ensures
        match expr_type(expr@, ctx@) {
            Ok(t) => r == Ok::<AttributeType, TranslateError>(t),
            Err(e) => r is Err && r.unwrap_err()@ == e,
        },
    decreases expr,
{
    match expr {
        Expr::Binary(binary) => {
            let left = type_check_expr(&*binary.left, ctx)?;
            let right = type_check_expr(&*binary.right, ctx)?;
            if left != right {
                return Err(
                    TranslateError::TypeError(
                        String::from_str("the operands of an operation have different types"),
                    ),
                );
            }
            match operation_result(binary.op, left) {
                Some(t) => Ok(t),
                None => Err(
                    TranslateError::TypeError(
                        String::from_str("the operation is not defined on operands of this type"),
                    ),
                ),
            }
        },
        Expr::Literal(LiteralExpr::Integer(_)) => Ok(AttributeType::Integer),
        Expr::Literal(LiteralExpr::Boolean(_)) => Ok(AttributeType::Boolean),
        Expr::Literal(LiteralExpr::String(_)) => Ok(AttributeType::Text),
        Expr::Literal(LiteralExpr::Identifier(attr)) => {
            let name = AttributeName(attr.clone());
            match ctx.get_attribute_type(&name) {
                Some(t) => Ok(t),
                None => Err(TranslateError::NoSuchAttribute(name.0)),
            }
        },
    }
}

/// The attributes called `attr_names`, in that order, with their types in `ctx`.
pub fn type_check_projection(attr_names: &Vec<String>, ctx: &Attributes) -> (r: Result<
    Attributes,
    TranslateError,
>)
    ensures
        match projected(text_views(attr_names@), ctx@) {
            Ok(attributes) => r is Ok && r.unwrap()@ == attributes,
            Err(e) => r is Err && r.unwrap_err()@ == e,
        },
{
    let ghost names = text_views(attr_names@);
    let mut attributes: Vec<(AttributeName, AttributeType)> = Vec::new();
    let mut i: usize = 0;
    proof {
        assert(names.skip(0) == names);
        match projected(names, ctx@) {
            Ok(rest) => {
                assert(attribute_views(attributes@) + rest =~= rest);
            },
            Err(_) => {},
        }
    }
    while i < attr_names.len()
        invariant
            i <= attr_names.len(),
            names == text_views(attr_names@),
            projected(names, ctx@) == match projected(names.skip(i as int), ctx@) {
                Ok(rest) => Ok::<AttributesView, TranslateErrorView>(
                    attribute_views(attributes@) + rest,
                ),
                Err(e) => Err(e),
            },
        decreases attr_names.len() - i,
    {
        let name = AttributeName(attr_names[i].clone());
        assert(names.skip(i as int)[0] == name@);
        assert(names.skip(i as int).skip(1) == names.skip(i + 1));
        match ctx.get_attribute_type(&name) {
            Some(attr_type) => {
                proof {
                    match projected(names.skip(i + 1), ctx@) {
                        Ok(rest) => {
                            assert(attribute_views(attributes@.push((name, attr_type))) + rest
                                =~= attribute_views(attributes@) + (seq![(name@, attr_type)]
                                + rest));
                        },
                        Err(_) => {},
                    }
                }
                attributes.push((name, attr_type));
            },
            None => {
                return Err(TranslateError::NoSuchAttribute(name.0));
            },
        }
        i += 1;
    }
    assert(attribute_views(attributes@) + Seq::empty() =~= attribute_views(attributes@));
    Ok(Attributes::new(attributes))
}

/// The condition `predicate` of a join over rows with the attributes `ctx`.
pub fn type_check_join_predicate(predicate: WhereClause, ctx: &Attributes) -> (r: Result<
    Expr,
    TranslateError,
>)
    ensures
        match join_condition(predicate@, ctx@) {
            Ok(expr) => r is Ok && r.unwrap()@ == expr,
            Err(e) => r is Err && r.unwrap_err()@ == e,
        },
{
    match predicate {
        WhereClause::Absent => Err(
            TranslateError::InvalidArguments(String::from_str("no join condition provided")),
        ),
        WhereClause::Expr(expr) => match type_check_expr(&expr, ctx) {
            Ok(AttributeType::Boolean) => Ok(expr),
            Ok(_) => Err(
                TranslateError::TypeError(
                    String::from_str("the condition of a join must be a boolean"),
                ),
            ),
            Err(e) => Err(e),
        },
    }
}

} // verus!
