//! The pull-based operators and what they evaluate.
//!
//! An operator is asked for one row at a time. What an operator will still
//! yield is a sequence of items, each a row or an error; `next` takes the
//! first item off that sequence.

pub mod create;
pub mod engine;
pub mod expr_evaluation;
pub mod filter;
pub mod insert;
pub mod join;
pub mod order;
pub mod project;
pub mod scan;

use crate::execution::expr_evaluation::{evaluation_message, EvaluationErrorView, holds};
use crate::execution::filter::FilterOperation;
use crate::execution::join::{InnerJoinOperation, TupleWithColumnLookup};
use crate::execution::project::ProjectOperation;
use crate::execution::scan::ScanOperation;
use crate::parser::ast::ExprView;
use crate::planner::plan::query_plan::QueryResultSchema;
use crate::storage::error::{StorageError, StorageErrorView};
use crate::storage::storage_manager::{AttributesView, lookup, name_views};
use crate::storage::table_storage::record_views;
use crate::storage::tuple::TupleRecord;
use crate::storage::tuple_serde::{
    decode_record, encode_values, named_value_views, NamedValuesView, serde_message, SerdeErrorView,
    ValueView,
};
use vstd::prelude::*;

verus! {

pub type EmptyResult = Result<(), StorageError>;

pub type TupleResult = Option<Result<TupleRecord, StorageError>>;

/// One item of what an operator yields, as a mathematical value.
pub type ItemView = Result<Seq<u8>, StorageErrorView>;

/// The view of one item.
pub open spec fn item_view(item: Result<TupleRecord, StorageError>) -> ItemView {
    match item {
        Ok(record) => Ok(record@),
        Err(e) => Err(e@),
    }
}

/// The rows `rows`, each as an item.
pub open spec fn rows_as_items(rows: Seq<Seq<u8>>) -> Seq<ItemView> {
    rows.map_values(|row: Seq<u8>| Ok::<Seq<u8>, StorageErrorView>(row))
}

/// The error that a row which cannot be read against its schema yields.
pub open spec fn unreadable(bytes: Seq<u8>, schema: AttributesView) -> StorageErrorView {
    StorageErrorView::TupleSerdeError(serde_message(decode_record(bytes, schema)->Err_0))
}

/// What a filter makes of one item of its input: an error goes through; a
/// row that cannot be read, or on which the predicate has no value, becomes
/// an error; a row on which the predicate holds goes through; any other row
/// is dropped.
pub open spec fn filter_item(item: ItemView, predicate: ExprView, schema: AttributesView) -> Option<
    ItemView,
> {
    match item {
        Err(e) => Some(Err(e)),
        Ok(bytes) => match decode_record(bytes, schema) {
            Err(_) => Some(Err(unreadable(bytes, schema))),
            Ok(values) => match holds(predicate, values) {
                Ok(true) => Some(Ok(bytes)),
                Ok(false) => None,
                Err(e) => Some(Err(StorageErrorView::EvaluationError(evaluation_message(e)))),
            },
        },
    }
}

/// What a filter yields from the items `items` of its input.
pub open spec fn filtered(items: Seq<ItemView>, predicate: ExprView, schema: AttributesView) -> Seq<
    ItemView,
>
    decreases items.len(),
{
    if items.len() == 0 {
        Seq::empty()
    } else {
        match filter_item(items[0], predicate, schema) {
            Some(item) => seq![item] + filtered(items.skip(1), predicate, schema),
            None => filtered(items.skip(1), predicate, schema),
        }
    }
}

/// The values called `names` in `values`, in the order of `names`; or the
/// first name that `values` does not have.
pub open spec fn gathered(values: NamedValuesView, names: Seq<Seq<char>>) -> Result<
    Seq<ValueView>,
    Seq<char>,
>
    decreases names.len(),
{
    if names.len() == 0 {
        Ok(Seq::empty())
    } else {
        match lookup(values, names[0]) {
            None => Err(names[0]),
            Some(v) => match gathered(values, names.skip(1)) {
                Err(name) => Err(name),
                Ok(rest) => Ok(seq![v] + rest),
            },
        }
    }
}

/// The error that a row without the attribute `name` yields.
pub open spec fn missing_attribute(name: Seq<char>) -> StorageErrorView {
    StorageErrorView::EvaluationError(
        evaluation_message(
            EvaluationErrorView::NoSuchAttribute(name),
        ),
    )
}

/// What a projection makes of one item of its input: an error goes through;
/// a row that cannot be read, or that lacks one of the attributes, becomes
/// an error; any other row becomes the row of the attributes `names`, in
/// that order.
pub open spec fn project_item(
    item: ItemView,
    record_schema: AttributesView,
    names: Seq<Seq<char>>,
) -> ItemView {
    match item {
        Err(e) => Err(e),
        Ok(bytes) => match decode_record(bytes, record_schema) {
            Err(_) => Err(unreadable(bytes, record_schema)),
            Ok(values) => match gathered(values, names) {
                Ok(projected) => Ok(encode_values(projected)),
                Err(name) => Err(missing_attribute(name)),
            },
        },
    }
}

/// What a projection yields from the items `items` of its input.
pub open spec fn projected_items(
    items: Seq<ItemView>,
    record_schema: AttributesView,
    names: Seq<Seq<char>>,
) -> Seq<
    ItemView,
> {
    items.map_values(|item: ItemView| project_item(item, record_schema, names))
}

/// The rows of the items `items` up to the first that is an error or cannot
/// be read against `schema`, and the error that this first one yields.
pub open spec fn drained(items: Seq<ItemView>, schema: AttributesView) -> (
    Seq<Seq<u8>>,
    Option<StorageErrorView>,
)
    decreases items.len(),
{
    if items.len() == 0 {
        (Seq::empty(), None)
    } else {
        match items[0] {
            Err(e) => (Seq::empty(), Some(e)),
            Ok(bytes) => match decode_record(bytes, schema) {
                Err(_) => (Seq::empty(), Some(unreadable(bytes, schema))),
                Ok(_) => (
                    seq![bytes] + drained(items.skip(1), schema).0,
                    drained(items.skip(1), schema).1,
                ),
            },
        }
    }
}

/// What a join yields for one row of its right input, with the values
/// `right_values`, against the rows `left_rows` of its left input, in their
/// order: the left row followed by the right row wherever the predicate
/// holds of the values of both. Where the predicate has no value, the error
/// ends what the right row yields.
pub open spec fn row_matches(
    left_rows: Seq<Seq<u8>>,
    left_schema: AttributesView,
    right_row: Seq<u8>,
    right_values: NamedValuesView,
    predicate: ExprView,
) -> Seq<ItemView>
    decreases left_rows.len(),
{
    if left_rows.len() == 0 {
        Seq::empty()
    } else {
        let left_values = decode_record(left_rows[0], left_schema)->Ok_0;
        let more = row_matches(left_rows.skip(1), left_schema, right_row, right_values, predicate);
        match holds(predicate, left_values + right_values) {
            Ok(true) => seq![Ok::<Seq<u8>, StorageErrorView>(left_rows[0] + right_row)] + more,
            Ok(false) => more,
            Err(e) => seq![
                Err::<Seq<u8>, StorageErrorView>(
                    StorageErrorView::EvaluationError(evaluation_message(e)),
                ),
            ],
        }
    }
}

/// What a join yields for one item of its right input: an error goes
/// through; a row that cannot be read becomes an error; any other row yields
/// its matches.
pub open spec fn probe_item(
    item: ItemView,
    left_rows: Seq<Seq<u8>>,
    left_schema: AttributesView,
    right_schema: AttributesView,
    predicate: ExprView,
) -> Seq<ItemView> {
    match item {
        Err(e) => seq![Err::<Seq<u8>, StorageErrorView>(e)],
        Ok(bytes) => match decode_record(bytes, right_schema) {
            Err(_) => seq![Err::<Seq<u8>, StorageErrorView>(unreadable(bytes, right_schema))],
            Ok(values) => row_matches(left_rows, left_schema, bytes, values, predicate),
        },
    }
}

/// What a join yields for the items `items` of its right input, one after
/// the other.
pub open spec fn probed(
    items: Seq<ItemView>,
    left_rows: Seq<Seq<u8>>,
    left_schema: AttributesView,
    right_schema: AttributesView,
    predicate: ExprView,
) -> Seq<ItemView>
    decreases items.len(),
{
    if items.len() == 0 {
        Seq::empty()
    } else {
        probe_item(items[0], left_rows, left_schema, right_schema, predicate) + probed(
            items.skip(1),
            left_rows,
            left_schema,
            right_schema,
            predicate,
        )
    }
}

/// The views of a run of items, in order.
pub open spec fn item_views(items: Seq<Result<TupleRecord, StorageError>>) -> Seq<ItemView> {
    items.map_values(|item: Result<TupleRecord, StorageError>| item_view(item))
}

/// The rows that a join has kept of its left input, in order.
pub open spec fn kept_rows(buffer: Seq<TupleWithColumnLookup>) -> Seq<Seq<u8>> {
    buffer.map_values(|kept: TupleWithColumnLookup| kept.tuple@)
}

/// The error `error`, where there is one, as the only item.
pub open spec fn error_item(error: Option<StorageErrorView>) -> Seq<ItemView> {
    match error {
        Some(e) => seq![Err::<Seq<u8>, StorageErrorView>(e)],
        None => Seq::empty(),
    }
}

/// What an inner join yields. It first takes all of its left input, up to
/// the first error, which it yields; then, for each item of its right input
/// in order, what that item yields against the left rows.
pub open spec fn joined(join: InnerJoinOperation, left: Seq<ItemView>, right: Seq<ItemView>) -> Seq<
    ItemView,
> {
    if join.pre_fetched_left {
        item_views(join.joined_tuples_buffer@).skip(join.emitted as int) + probed(
            right,
            kept_rows(join.left_tuple_buffer@),
            join.left.schema@,
            join.right.schema@,
            join.predicate@,
        )
    } else {
        error_item(drained(left, join.left.schema@).1) + probed(
            right,
            drained(left, join.left.schema@).0,
            join.left.schema@,
            join.right.schema@,
            join.predicate@,
        )
    }
}

/// Whether the state of a join is consistent: the values kept with each
/// left row are those of the row, and before the left input is taken
/// nothing is kept or ready.
pub open spec fn join_consistent(join: InnerJoinOperation) -> bool {
    &&& join.emitted <= join.joined_tuples_buffer.len()
    &&& forall|i: int|
        0 <= i < join.left_tuple_buffer.len() ==> decode_record(
            (#[trigger] join.left_tuple_buffer[i]).tuple@,
            join.left.schema@,
        ) == Ok::<NamedValuesView, SerdeErrorView>(
            named_value_views(join.left_tuple_buffer[i].columns@),
        )
    &&& !join.pre_fetched_left ==> join.left_tuple_buffer.len() == 0 && join.emitted
        == join.joined_tuples_buffer.len()
}

/// Yields the outcome of a statement that has no rows: nothing where it
/// succeeded, its error where it failed.
pub struct EmptyResultIterator {
    pub result: Option<EmptyResult>,
}

/// Any operator.
pub enum Operator {
    Scan(ScanOperation),
    Filter(FilterOperation),
    Project(ProjectOperation),
    Join(InnerJoinOperation),
    Done(EmptyResultIterator),
}

/// What `operator` will still yield, in order.
pub open spec fn stream_of(operator: Operator) -> Seq<ItemView>
    decreases operator,
{
    match operator {
        Operator::Scan(scan) => rows_as_items(
            record_views(scan.tuples@).skip(scan.index as int),
        ),
        Operator::Filter(filter) => filtered(
            stream_of(*filter.input),
            filter.predicate@,
            filter.schema@,
        ),
        Operator::Project(project) => projected_items(
            stream_of(*project.input),
            project.record_schema@,
            name_views(project.projected_attributes@),
        ),
        Operator::Join(join) => joined(
            join,
            stream_of(*join.left.tuples),
            stream_of(*join.right.tuples),
        ),
        Operator::Done(done) => match done.result {
            Some(Err(e)) => seq![Err::<Seq<u8>, StorageErrorView>(e@)],
            _ => Seq::empty(),
        },
    }
}

/// The number of operators from `operator` down to its deepest input.
pub open spec fn depth_of(operator: Operator) -> nat
    decreases operator,
{
    match operator {
        Operator::Scan(_) => 0,
        Operator::Filter(filter) => depth_of(*filter.input) + 1,
        Operator::Project(project) => depth_of(*project.input) + 1,
        Operator::Join(join) => depth_of(*join.left.tuples) + depth_of(*join.right.tuples) + 1,
        Operator::Done(_) => 0,
    }
}

/// Whether the state of `operator` and of its inputs is consistent.
pub open spec fn consistent(operator: Operator) -> bool
    decreases operator,
{
    match operator {
        Operator::Scan(scan) => scan.index <= scan.tuples.len(),
        Operator::Filter(filter) => consistent(*filter.input),
        Operator::Project(project) => consistent(*project.input),
        Operator::Join(join) => consistent(*join.left.tuples) && consistent(*join.right.tuples)
            && join_consistent(join),
        Operator::Done(_) => true,
    }
}

/// What is asked of an operator: the next row, an error, or nothing more.
pub trait NextTuple {
    /// What is still to come, in order.
    spec fn pending(&self) -> Seq<ItemView>;

    /// The number of operators down to the deepest input.
    spec fn depth(&self) -> nat;

    /// Whether the state is consistent.
    spec fn wf(&self) -> bool;

    /// Takes the first item of what is still to come.
    fn next(&mut self) -> (r: TupleResult)
        requires
            old(self).wf(),
        ensures
            final(self).wf(),
            final(self).depth() == old(self).depth(),
            match r {
                Some(item) => old(self).pending().len() > 0 && item_view(item)
                    == old(self).pending()[0] && final(self).pending() == old(self).pending().skip(1),
                None => old(self).pending().len() == 0 && final(self).pending().len() == 0,
            },
    ;
}

impl NextTuple for EmptyResultIterator {
    open spec fn pending(&self) -> Seq<ItemView> {
        stream_of(Operator::Done(*self))
    }

    open spec fn depth(&self) -> nat {
        0
    }

    open spec fn wf(&self) -> bool {
        true
    }

    fn next(&mut self) -> (r: TupleResult) {
        let result = self.result.take();
        match result {
            Some(Err(err)) => Some(Err(err)),
            _ => None,
        }
    }
}

impl NextTuple for Operator {
    open spec fn pending(&self) -> Seq<ItemView> {
        stream_of(*self)
    }

    open spec fn depth(&self) -> nat {
        depth_of(*self)
    }

    open spec fn wf(&self) -> bool {
        consistent(*self)
    }

    fn next(&mut self) -> (r: TupleResult)
        decreases old(self).depth(), 3nat,
    {
        match self {
            Operator::Scan(scan) => scan.next(),
            Operator::Filter(filter) => filter.next(),
            Operator::Project(project) => project.next(),
            Operator::Join(join) => join.next(),
            Operator::Done(done) => done.next(),
        }
    }
}

/// Takes all that `operator` still yields, in order.
pub fn drain<T: NextTuple>(operator: &mut T) -> (r: Vec<Result<TupleRecord, StorageError>>)
    requires
        old(operator).wf(),
    ensures
        final(operator).wf(),
        final(operator).depth() == old(operator).depth(),
        item_views(r@) == old(operator).pending(),
        final(operator).pending().len() == 0,
{
    let mut items: Vec<Result<TupleRecord, StorageError>> = Vec::new();
    let ghost all = operator.pending();
    assert(item_views(items@) + all =~= all);
    loop
        invariant
            operator.wf(),
            operator.depth() == old(operator).depth(),
            all == old(operator).pending(),
            all == item_views(items@) + operator.pending(),
        decreases operator.pending().len(),
    {
        let ghost before = item_views(items@);
        let ghost pending = operator.pending();
        match operator.next() {
            Some(item) => {
                items.push(item);
                assert(item_views(items@) =~= before.push(pending[0]));
                assert(before + pending =~= before.push(pending[0]) + pending.skip(1));
            },
            None => {
                assert(before + pending =~= before);
                return items;
            },
        }
    }
}

/// An operator together with the schema of the rows it yields.
pub struct SubQueryTuples {
    pub schema: QueryResultSchema,
    pub tuples: Box<Operator>,
}

} // verus!
