//! What the type of an expression says of its value.

use crate::execution::expr_evaluation::{EvaluationErrorView, holds, value_of};
use crate::parser::ast::{ExprView, LiteralView};
use crate::storage::storage_manager::{AttributesView, lookup};
use crate::storage::tuple_serde::{
    column_types, decode_prefix, decode_record, Decoded, NamedValuesView, Read, read_value, type_of,
};
use crate::storage::types::AttributeType;
use crate::translate::error::TranslateErrorView;
use crate::translate::type_check::expr_type;
use vstd::prelude::*;

verus! {

/// Whether the values `row` are values of the attributes `schema`: position
/// by position, the same name and a value of the attribute's type.
pub open spec fn conforms(row: NamedValuesView, schema: AttributesView) -> bool {
    &&& row.len() == schema.len()
    &&& forall|i: int|
        0 <= i < row.len() ==> (#[trigger] row[i]).0 == schema[i].0 && type_of(row[i].1)
            == schema[i].1
}

/// Whether an evaluation failed on arithmetic: the only failures that the
/// types of an expression do not exclude.
pub open spec fn is_arithmetic(e: EvaluationErrorView) -> bool {
    e is Overflow || e is DivisionByZero
}

/// A row of a schema has a value wherever the schema has an attribute, and
/// the value has the attribute's type.
pub proof fn lemma_lookup_conforms(row: NamedValuesView, schema: AttributesView, name: Seq<char>)
    requires
        conforms(row, schema),
    ensures
        match lookup(schema, name) {
            Some(t) => lookup(row, name) is Some && type_of(lookup(row, name).unwrap()) == t,
            None => lookup(row, name) is None,
        },
    decreases schema.len(),
{
    if schema.len() > 0 {
        assert(row[0].0 == schema[0].0);
        if schema[0].0 != name {
            assert forall|i: int| 0 <= i < row.skip(1).len() implies (#[trigger] row.skip(
                1,
            )[i]).0 == schema.skip(1)[i].0 && type_of(row.skip(1)[i].1) == schema.skip(1)[i].1 by {
                assert(row.skip(1)[i] == row[i + 1]);
            }
            lemma_lookup_conforms(row.skip(1), schema.skip(1), name);
        }
    }
}

/// An expression that has a type over a schema has, on every row of that
/// schema, a value of that type, unless its arithmetic fails.
pub proof fn lemma_typed_expression_has_value(
    expr: ExprView,
    schema: AttributesView,
    row: NamedValuesView,
)
    requires
        conforms(row, schema),
        expr_type(expr, schema) is Ok,
    ensures
        match value_of(expr, row) {
            Ok(v) => type_of(v) == expr_type(expr, schema)->Ok_0,
            Err(e) => is_arithmetic(e),
        },
    decreases expr,
{
    match expr {
        ExprView::Literal(LiteralView::Identifier(id)) => {
            lemma_lookup_conforms(row, schema, id);
        },
        ExprView::Literal(_) => {},
        ExprView::Binary(left, op, right) => {
            lemma_typed_expression_has_value(*left, schema, row);
            lemma_typed_expression_has_value(*right, schema, row);
        },
    }
}

/// A predicate that is a boolean over a schema holds or does not hold of
/// every row of that schema, unless its arithmetic fails.
pub proof fn lemma_typed_predicate_decides(
    predicate: ExprView,
    schema: AttributesView,
    row: NamedValuesView,
)
    requires
        conforms(row, schema),
        expr_type(predicate, schema) == Ok::<
            AttributeType,
            TranslateErrorView,
        >(AttributeType::Boolean),
    ensures
        match holds(predicate, row) {
            Ok(_) => true,
            Err(e) => is_arithmetic(e),
        },
{
    lemma_typed_expression_has_value(predicate, schema, row);
}

/// Values that were read have the types they were read as.
pub proof fn lemma_prefix_types(bytes: Seq<u8>, types: Seq<AttributeType>)
    ensures
        match decode_prefix(bytes, types) {
            Decoded::Values(values, _) => values.len() == types.len() && forall|i: int|
                0 <= i < values.len() ==> type_of(#[trigger] values[i]) == types[i],
            _ => true,
        },
    decreases types.len(),
{
    if types.len() > 0 {
        match read_value(bytes, types[0]) {
            Read::Value(v, n) => {
                lemma_prefix_types(bytes.skip(n as int), types.skip(1));
                match decode_prefix(bytes.skip(n as int), types.skip(1)) {
                    Decoded::Values(rest, _) => {
                        let values = seq![v] + rest;
                        assert forall|i: int| 0 <= i < values.len() implies type_of(
                            #[trigger] values[i],
                        ) == types[i] by {
                            if i > 0 {
                                assert(values[i] == rest[i - 1]);
                                assert(types.skip(1)[i - 1] == types[i]);
                            }
                        }
                    },
                    _ => {},
                }
            },
            _ => {},
        }
    }
}

/// A record that was read against a schema is a row of that schema.
pub proof fn lemma_decoded_conforms(bytes: Seq<u8>, schema: AttributesView)
    ensures
        decode_record(bytes, schema) is Ok ==> conforms(
            decode_record(bytes, schema)->Ok_0,
            schema,
        ),
{
    lemma_prefix_types(bytes, column_types(schema));
}

} // verus!
