//! The filter: the rows of its input on which a predicate holds.

use crate::execution::{
    consistent, depth_of, drain, filtered, item_views, ItemView, NextTuple, Operator, stream_of,
    TupleResult,
};
use crate::execution::expr_evaluation::{evaluate_predicate_with_ctx, EvaluationError, holds};
use crate::parser::ast::Expr;
use crate::planner::plan::query_plan::QueryResultSchema;
use crate::storage::error::StorageError;
use crate::storage::storage_manager::AttributeName;
use crate::storage::tuple::TupleRecord;
use crate::storage::tuple_serde::{named_value_views, StorageTupleValue};
use vstd::prelude::*;

verus! {

/// Reads each row of `input` against `schema` and yields it where `predicate`
/// holds of its values.
pub struct FilterOperation {
    pub predicate: Expr,
    pub schema: QueryResultSchema,
    pub input: Box<Operator>,
}

impl NextTuple for FilterOperation {
    open spec fn pending(&self) -> Seq<ItemView> {
        filtered(stream_of(*self.input), self.predicate@, self.schema@)
    }

    open spec fn depth(&self) -> nat {
        depth_of(*self.input) + 1
    }

    open spec fn wf(&self) -> bool {
        consistent(*self.input)
    }

    #[verifier::loop_isolation(false)]
    fn next(&mut self) -> (r: TupleResult)
        decreases old(self).depth(), 2nat,
    {
        loop
            invariant
                self.wf(),
                self.predicate == old(self).predicate,
                self.schema == old(self).schema,
                depth_of(*self.input) == depth_of(*old(self).input),
                self.pending() == old(self).pending(),
            decreases stream_of(*self.input).len(),
        {
            let ghost items = stream_of(*self.input);
            match self.input.next() {
                Some(Ok(record)) => {
                    match record.to_values(&self.schema.attributes) {
                        Ok(tuple_values) => {
                            match evaluate_predicate_with_ctx(&self.predicate, &tuple_values) {
                                Ok(true) => {
                                    return Some(Ok(record));
                                },
                                Ok(false) => {},
                                Err(err) => {
                                    return Some(
                                        Err(StorageError::EvaluationError(err.to_string())),
                                    );
                                },
                            }
                        },
                        Err(err) => {
                            return Some(Err(StorageError::from(err)));
                        },
                    }
                },
                Some(Err(err)) => {
                    return Some(Err(err));
                },
                None => {
                    return None;
                },
            }
        }
    }
}

impl FilterOperation {
    /// All that the filter yields, in order.
    pub fn execute(self) -> (r: Vec<Result<TupleRecord, StorageError>>)
        requires
            self.wf(),
        ensures
            item_views(r@) == self.pending(),
    {
        let mut filter = self;
        drain(&mut filter)
    }

    /// Whether `predicate` holds of the row `ctx`.
    pub fn evaluate_predicate_with_ctx(
        predicate: &Expr,
        ctx: &Vec<(AttributeName, StorageTupleValue)>,
    ) -> (r: Result<bool, EvaluationError>)
        ensures
            match holds(predicate@, named_value_views(ctx@)) {
                Ok(b) => r == Ok::<bool, EvaluationError>(b),
                Err(e) => r is Err && r.unwrap_err()@ == e,
            },
    {
        evaluate_predicate_with_ctx(predicate, ctx)
    }

    pub fn new(predicate: Expr, schema: QueryResultSchema, input: Box<Operator>) -> (r: Self)
        ensures
            r.predicate == predicate,
            r.schema == schema,
            r.input == input,
    {
        FilterOperation { predicate, schema, input }
    }
}

} // verus!
