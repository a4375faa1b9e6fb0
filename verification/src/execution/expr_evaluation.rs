//! Evaluation of expressions over the named values of a row.

use crate::parser::ast::{BinaryOperation, Expr, ExprView, LiteralExpr, LiteralView};
use crate::storage::storage_manager::{AttributeName, lookup};
use crate::storage::tuple_serde::{named_value_views, NamedValuesView, StorageTupleValue, ValueView};
use vstd::prelude::*;
use vstd::string::StringExecFns;

verus! {

/// Why an expression has no value.
#[derive(Debug, Eq, PartialEq)]
pub enum EvaluationError {
    /// The expression names an attribute that the row does not have.
    NoSuchAttribute(String),
    /// An operation is applied to values it is not defined on.
    InvalidOperands,
    /// The result of an arithmetic operation is not a 32-bit integer.
    Overflow,
    DivisionByZero,
    /// A predicate has a value that is not a boolean.
    NotBoolean,
}

pub enum EvaluationErrorView {
    NoSuchAttribute(Seq<char>),
    InvalidOperands,
    Overflow,
    DivisionByZero,
    NotBoolean,
}

impl View for EvaluationError {
    type V = EvaluationErrorView;

    open spec fn view(&self) -> EvaluationErrorView {
        match self {
            EvaluationError::NoSuchAttribute(name) => EvaluationErrorView::NoSuchAttribute(name@),
            EvaluationError::InvalidOperands => EvaluationErrorView::InvalidOperands,
            EvaluationError::Overflow => EvaluationErrorView::Overflow,
            EvaluationError::DivisionByZero => EvaluationErrorView::DivisionByZero,
            EvaluationError::NotBoolean => EvaluationErrorView::NotBoolean,
        }
    }
}

/// The message of an evaluation error.
pub open spec fn evaluation_message(e: EvaluationErrorView) -> Seq<char> {
    match e {
        EvaluationErrorView::NoSuchAttribute(name) => "no such attribute "@ + name,
        EvaluationErrorView::InvalidOperands => "operation is not defined on these operands"@,
        EvaluationErrorView::Overflow => "integer overflow"@,
        EvaluationErrorView::DivisionByZero => "division by zero"@,
        EvaluationErrorView::NotBoolean => "predicate is not a boolean"@,
    }
}

impl EvaluationError {
    /// The message of this error.
    pub fn to_string(&self) -> (r: String)
        ensures
            r@ == evaluation_message(self@),
    {
        match self {
            EvaluationError::NoSuchAttribute(name) => String::from_str(
                "no such attribute ",
            ).concat(name.as_str()),
            EvaluationError::InvalidOperands => String::from_str(
                "operation is not defined on these operands",
            ),
            EvaluationError::Overflow => String::from_str("integer overflow"),
            EvaluationError::DivisionByZero => String::from_str("division by zero"),
            EvaluationError::NotBoolean => String::from_str("predicate is not a boolean"),
        }
    }
}

/// The result of an arithmetic operation, where it is a 32-bit integer.
pub open spec fn checked(result: Option<i32>) -> Result<ValueView, EvaluationErrorView> {
    match result {
        Some(n) => Ok(ValueView::Integer(n)),
        None => Err(EvaluationErrorView::Overflow),
    }
}

/// The value of `left op right`. Integers have arithmetic, which fails on
/// overflow and on division by zero, and all comparisons; booleans and texts
/// have equality and inequality only; the operands have the same type.
pub open spec fn apply(op: BinaryOperation, left: ValueView, right: ValueView) -> Result<
    ValueView,
    EvaluationErrorView,
> {
    match (left, right) {
        (ValueView::Integer(l), ValueView::Integer(r)) => match op {
            BinaryOperation::Addition => checked(l.checked_add(r)),
            BinaryOperation::Subtraction => checked(l.checked_sub(r)),
            BinaryOperation::Multiplication => checked(l.checked_mul(r)),
            BinaryOperation::Division => if r == 0 {
                Err(EvaluationErrorView::DivisionByZero)
            } else {
                checked(l.checked_div(r))
            },
            BinaryOperation::Equal => Ok(ValueView::Boolean(l == r)),
            BinaryOperation::NotEqual => Ok(ValueView::Boolean(l != r)),
            BinaryOperation::LessThan => Ok(ValueView::Boolean(l < r)),
            BinaryOperation::GreaterThan => Ok(ValueView::Boolean(l > r)),
            BinaryOperation::LessThanOrEqual => Ok(ValueView::Boolean(l <= r)),
            BinaryOperation::GreaterThanOrEqual => Ok(ValueView::Boolean(l >= r)),
        },
        (ValueView::Boolean(l), ValueView::Boolean(r)) => match op {
            BinaryOperation::Equal => Ok(ValueView::Boolean(l == r)),
            BinaryOperation::NotEqual => Ok(ValueView::Boolean(l != r)),
            _ => Err(EvaluationErrorView::InvalidOperands),
        },
        (ValueView::String(l), ValueView::String(r)) => match op {
            BinaryOperation::Equal => Ok(ValueView::Boolean(l == r)),
            BinaryOperation::NotEqual => Ok(ValueView::Boolean(l != r)),
            _ => Err(EvaluationErrorView::InvalidOperands),
        },
        _ => Err(EvaluationErrorView::InvalidOperands),
    }
}

/// The value of `expr` where an identifier stands for the first value of
/// that name in `ctx`. The left operand is evaluated first, and the first
/// failure is the result.
pub open spec fn value_of(expr: ExprView, ctx: NamedValuesView) -> Result<
    ValueView,
    EvaluationErrorView,
>
    decreases expr,
{
    match expr {
        ExprView::Literal(LiteralView::Integer(n)) => Ok(ValueView::Integer(n)),
        ExprView::Literal(LiteralView::Boolean(b)) => Ok(ValueView::Boolean(b)),
        ExprView::Literal(LiteralView::String(s)) => Ok(ValueView::String(s)),
        ExprView::Literal(LiteralView::Identifier(id)) => match lookup(ctx, id) {
            Some(v) => Ok(v),
            None => Err(EvaluationErrorView::NoSuchAttribute(id)),
        },
        ExprView::Binary(left, op, right) => match value_of(*left, ctx) {
            Err(e) => Err(e),
            Ok(l) => match value_of(*right, ctx) {
                Err(e) => Err(e),
                Ok(r) => apply(op, l, r),
            },
        },
    }
}

/// Whether the predicate `expr` holds of the row `ctx`.
pub open spec fn holds(expr: ExprView, ctx: NamedValuesView) -> Result<bool, EvaluationErrorView> {
    match value_of(expr, ctx) {
        Ok(ValueView::Boolean(b)) => Ok(b),
        Ok(_) => Err(EvaluationErrorView::NotBoolean),
        Err(e) => Err(e),
    }
}

/// The first value called `name` in `ctx`.
pub fn find_value<'a>(ctx: &'a Vec<(AttributeName, StorageTupleValue)>, name: &String) -> (r:
    Option<&'a StorageTupleValue>)
    ensures
        match lookup(named_value_views(ctx@), name@) {
            Some(v) => r is Some && r.unwrap()@ == v,
            None => r is None,
        },
{
    let ghost table = named_value_views(ctx@);
    let mut i: usize = 0;
    assert(table.skip(0) == table);
    while i < ctx.len()
        invariant
            i <= ctx.len(),
            table == named_value_views(ctx@),
            lookup(table, name@) == lookup(table.skip(i as int), name@),
        decreases ctx.len() - i,
    {
        assert(table.skip(i as int)[0] == table[i as int]);
        if ctx[i].0.0 == *name {
            return Some(&ctx[i].1);
        }
        assert(table.skip(i as int).skip(1) == table.skip(i + 1));
        i += 1;
    }
    None
}

fn checked_value(result: Option<i32>) -> (r: Result<StorageTupleValue, EvaluationError>)
    ensures
        match checked(result) {
            Ok(v) => r is Ok && r.unwrap()@ == v,
            Err(e) => r is Err && r.unwrap_err()@ == e,
        },
{
    match result {
        Some(n) => Ok(StorageTupleValue::Integer(n)),
        None => Err(EvaluationError::Overflow),
    }
}

/// The value of `left op right`.
pub fn apply_operation(
    op: BinaryOperation,
    left: &StorageTupleValue,
    right: &StorageTupleValue,
) -> (r: Result<StorageTupleValue, EvaluationError>)
    ensures
        match apply(op, left@, right@) {
            Ok(v) => r is Ok && r.unwrap()@ == v,
            Err(e) => r is Err && r.unwrap_err()@ == e,
        },
{
    match (left, right) {
        (StorageTupleValue::Integer(l), StorageTupleValue::Integer(r)) => match op {
            BinaryOperation::Addition => checked_value(l.checked_add(*r)),
            BinaryOperation::Subtraction => checked_value(l.checked_sub(*r)),
            BinaryOperation::Multiplication => checked_value(l.checked_mul(*r)),
            BinaryOperation::Division => if *r == 0 {
                Err(EvaluationError::DivisionByZero)
            } else {
                checked_value(l.checked_div(*r))
            },
            BinaryOperation::Equal => Ok(StorageTupleValue::Boolean(*l == *r)),
            BinaryOperation::NotEqual => Ok(StorageTupleValue::Boolean(*l != *r)),
            BinaryOperation::LessThan => Ok(StorageTupleValue::Boolean(*l < *r)),
            BinaryOperation::GreaterThan => Ok(StorageTupleValue::Boolean(*l > *r)),
            BinaryOperation::LessThanOrEqual => Ok(StorageTupleValue::Boolean(*l <= *r)),
            BinaryOperation::GreaterThanOrEqual => Ok(StorageTupleValue::Boolean(*l >= *r)),
        },
        (StorageTupleValue::Boolean(l), StorageTupleValue::Boolean(r)) => match op {
            BinaryOperation::Equal => Ok(StorageTupleValue::Boolean(*l == *r)),
            BinaryOperation::NotEqual => Ok(StorageTupleValue::Boolean(*l != *r)),
            _ => Err(EvaluationError::InvalidOperands),
        },
        (StorageTupleValue::String(l), StorageTupleValue::String(r)) => match op {
            BinaryOperation::Equal => Ok(StorageTupleValue::Boolean(*l == *r)),
            BinaryOperation::NotEqual => Ok(StorageTupleValue::Boolean(!(*l == *r))),
            _ => Err(EvaluationError::InvalidOperands),
        },
        _ => Err(EvaluationError::InvalidOperands),
    }
}

/// The value of `expr` on the row `ctx`.
pub fn evaluate_expr(expr: &Expr, ctx: &Vec<(AttributeName, StorageTupleValue)>) -> (r: Result<
    StorageTupleValue,
    EvaluationError,
>)
    ensures
        match value_of(expr@, named_value_views(ctx@)) {
            Ok(v) => r is Ok && r.unwrap()@ == v,
            Err(e) => r is Err && r.unwrap_err()@ == e,
        },
    decreases expr,
{
    match expr {
        Expr::Binary(binary) => {
            let left = evaluate_expr(&*binary.left, ctx)?;
            let right = evaluate_expr(&*binary.right, ctx)?;
            apply_operation(binary.op, &left, &right)
        },
        Expr::Literal(LiteralExpr::Identifier(id)) => match find_value(ctx, id) {
            Some(value) => Ok(value.clone()),
            None => Err(EvaluationError::NoSuchAttribute(id.clone())),
        },
        Expr::Literal(LiteralExpr::Integer(n)) => Ok(StorageTupleValue::Integer(*n)),
        Expr::Literal(LiteralExpr::Boolean(b)) => Ok(StorageTupleValue::Boolean(*b)),
        Expr::Literal(LiteralExpr::String(s)) => Ok(StorageTupleValue::String(s.clone())),
    }
}

/// Whether `predicate` holds of the row `ctx`.
pub fn evaluate_predicate_with_ctx(
    predicate: &Expr,
    ctx: &Vec<(AttributeName, StorageTupleValue)>,
) -> (r: Result<bool, EvaluationError>)
    ensures
        match holds(predicate@, named_value_views(ctx@)) {
            Ok(b) => r == Ok::<bool, EvaluationError>(b),
            Err(e) => r is Err && r.unwrap_err()@ == e,
        },
{
    match evaluate_expr(predicate, ctx) {
        Ok(StorageTupleValue::Boolean(result)) => Ok(result),
        Ok(_) => Err(EvaluationError::NotBoolean),
        Err(e) => Err(e),
    }
}

} // verus!
