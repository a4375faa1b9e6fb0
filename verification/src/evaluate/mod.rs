//! From the plan to execute to the operators that yield its rows.

pub mod db;

use crate::execution::{
    consistent, drained, EmptyResult, EmptyResultIterator, error_item, filtered, ItemView,
    NextTuple, Operator, probed, projected_items, rows_as_items, stream_of, SubQueryTuples,
    unreadable,
};
use crate::execution::create::{created, CreateTableOperation};
use crate::execution::engine::Engine;
use crate::execution::filter::FilterOperation;
use crate::execution::insert::{inserted, with_row, InsertTupleOperation};
use crate::execution::join::InnerJoinOperation;
use crate::execution::project::ProjectOperation;
use crate::execution::scan::ScanOperation;
use crate::planner::optimizer::create_table_execution_plan::CreateTableExecutionPlan;
use crate::planner::optimizer::{ExecutionPlan, output_schema};
use crate::planner::optimizer::insert_tuple_execution_plan::InsertTupleExecutionPlan;
use crate::planner::optimizer::query_execution_plan::QueryExecutionPlan;
use crate::planner::plan::PlanView;
use crate::planner::plan::query_plan::{
    FilterNode, JoinNode, ProjectNode, QueryPlanNode, QueryPlanNodeView, QueryResultSchema,
    ScanNode,
};
use crate::storage::error::{StorageError, StorageErrorView};
use crate::storage::storage_manager::{
    AttributeName, AttributesView, CatalogView, lemma_lookup_is_entry,
};
use crate::storage::tuple_serde::{
    column_types, decode_record, encodable, encode_values, lemma_encode_then_decode, named,
    named_value_views, NamedValuesView, StorageTupleValue, types_of, ValueView,
};
use vstd::prelude::*;

verus! {

/// Whether every table that the plan scans is in the catalog.
pub open spec fn tables_exist(node: QueryPlanNodeView, catalog: CatalogView) -> bool
    decreases node,
{
    match node {
        QueryPlanNodeView::Scan { table_name, .. } => catalog.schema_of(table_name) is Some,
        QueryPlanNodeView::Filter { child, .. } => tables_exist(child.plan, catalog),
        QueryPlanNodeView::Project { child, .. } => tables_exist(child.plan, catalog),
        QueryPlanNodeView::Join { left, right, .. } => tables_exist(left.plan, catalog)
            && tables_exist(right.plan, catalog),
    }
}

/// What the plan yields against the catalog, in order. A scan yields the
/// rows of its table in the order in which they came; a filter, a
/// projection and a join yield what their operators make of their inputs.
/// A join reads the rows of each side against the schema of that side.
pub open spec fn node_stream(node: QueryPlanNodeView, catalog: CatalogView) -> Seq<ItemView>
    decreases node,
{
    match node {
        QueryPlanNodeView::Scan { table_name, .. } => rows_as_items(catalog.rows_of(table_name)),
        QueryPlanNodeView::Filter { predicate, schema, child } => filtered(
            node_stream(child.plan, catalog),
            predicate,
            schema,
        ),
        QueryPlanNodeView::Project { record_schema, attributes, child, .. } => projected_items(
            node_stream(child.plan, catalog),
            record_schema,
            attributes,
        ),
        QueryPlanNodeView::Join { predicate, left, right, .. } => {
            let build = drained(node_stream(left.plan, catalog), left.result_schema);
            error_item(build.1) + probed(
                node_stream(right.plan, catalog),
                build.0,
                left.result_schema,
                right.result_schema,
                predicate,
            )
        },
    }
}

/// A row that is inserted into a table comes last in the scan of that table,
/// after the rows that were there, which keep their order; the scans of other
/// tables are as they were.
pub proof fn lemma_scan_follows_insertion(
    catalog: CatalogView,
    table_name: Seq<char>,
    row: Seq<u8>,
    other: Seq<char>,
)
    requires
        catalog.stores_exist(),
        catalog.schema_of(table_name) is Some,
        catalog.schema_of(other) is Some,
    ensures
        ({
            let after = with_row(catalog, table_name, row);
            let scan = QueryPlanNodeView::Scan {
                schema: catalog.schema_of(table_name).unwrap().attributes,
                table_name,
            };
            let scan_other = QueryPlanNodeView::Scan {
                schema: catalog.schema_of(other).unwrap().attributes,
                table_name: other,
            };
            &&& after.schemas == catalog.schemas
            &&& node_stream(scan, after) == node_stream(scan, catalog).push(
                Ok::<Seq<u8>, StorageErrorView>(row),
            )
            &&& catalog.schema_of(other).unwrap().store_id != catalog.schema_of(
                table_name,
            ).unwrap().store_id ==> node_stream(scan_other, after) == node_stream(
                scan_other,
                catalog,
            )
        }),
{
    lemma_lookup_is_entry(catalog.schemas, table_name);
    lemma_lookup_is_entry(catalog.schemas, other);
    let after = with_row(catalog, table_name, row);
    let rows = catalog.rows_of(table_name);
    assert(after.rows_of(table_name) == rows.push(row));
    assert(rows_as_items(rows.push(row)) =~= rows_as_items(rows).push(
        Ok::<Seq<u8>, StorageErrorView>(row),
    ));
}

/// A row that was written from values of the types of a table's columns and
/// inserted into the table is read back, when the table is scanned, as those
/// values under the names of the columns.
pub proof fn lemma_inserted_row_reads_back(
    catalog: CatalogView,
    table_name: Seq<char>,
    values: Seq<ValueView>,
)
    requires
        catalog.stores_exist(),
        catalog.schema_of(table_name) is Some,
        forall|i: int|
            0 <= i < values.len() ==> encodable(
                #[trigger] values[i],
            ),
        column_types(
            catalog.schema_of(table_name).unwrap().attributes,
        ) == types_of(values),
    ensures
        ({
            let schema = catalog.schema_of(table_name).unwrap().attributes;
            let row = encode_values(values);
            let scan = QueryPlanNodeView::Scan { schema, table_name };
            let items = node_stream(scan, with_row(catalog, table_name, row));
            &&& items.len() == node_stream(scan, catalog).len() + 1
            &&& decoded_item(items.last(), schema) == Ok::<NamedValuesView, StorageErrorView>(
                named(schema, values),
            )
        }),
{
    let schema = catalog.schema_of(table_name).unwrap().attributes;
    lemma_scan_follows_insertion(
        catalog,
        table_name,
        encode_values(values),
        table_name,
    );
    lemma_encode_then_decode(values, schema);
}

/// What the caller gets for one item: the values of the row under their
/// names, or the error.
pub open spec fn decoded_item(item: ItemView, schema: AttributesView) -> Result<
    NamedValuesView,
    StorageErrorView,
> {
    match item {
        Err(e) => Err(e),
        Ok(bytes) => match decode_record(bytes, schema) {
            Ok(values) => Ok(values),
            Err(_) => Err(unreadable(bytes, schema)),
        },
    }
}

/// Builds operators from plans, and runs the statements that change the
/// catalog.
/// Whether the plan can be run against the catalog: the table it inserts
/// into, and every table it scans, is there.
pub open spec fn runnable(plan: PlanView, catalog: CatalogView) -> bool {
    match plan {
        PlanView::CreateTable(_) => true,
        PlanView::InsertTuple(insert) => catalog.schema_of(insert.table_name) is Some,
        PlanView::Query(query) => tables_exist(query.plan, catalog),
    }
}

/// The catalog after the plan was run against `catalog`, or why the plan
/// fails. A table is created unless one of its name exists or no store id is
/// left; a row is inserted unless the store is full; a query changes nothing.
pub open spec fn catalog_after(plan: PlanView, catalog: CatalogView) -> Result<
    CatalogView,
    StorageErrorView,
> {
    match plan {
        PlanView::CreateTable(create) => created(
            catalog,
            create.table_name,
            create.primary_key,
            create.schema_attributes,
        ),
        PlanView::InsertTuple(insert) => inserted(catalog, insert.table_name, insert.tuple),
        PlanView::Query(_) => Ok(catalog),
    }
}

/// What running the plan against `catalog` yields: the rows of a query;
/// nothing for another statement, or the error that it fails with.
pub open spec fn plan_stream(plan: PlanView, catalog: CatalogView) -> Seq<ItemView> {
    match plan {
        PlanView::Query(query) => node_stream(query.plan, catalog),
        _ => match catalog_after(plan, catalog) {
            Ok(_) => Seq::empty(),
            Err(e) => seq![Err::<Seq<u8>, StorageErrorView>(e)],
        },
    }
}

pub struct Evaluation<'storage> {
    pub engine: Engine<'storage>,
}

/// What a statement yields: the rows of a query, read against the schema
/// of its result; or the outcome of a statement without rows.
pub struct EvaluationResult {
    pub schema: Option<QueryResultSchema>,
    pub input: Box<Operator>,
}

impl EvaluationResult {
    /// Whether the state is consistent: rows come with a schema.
    pub open spec fn wf(&self) -> bool {
        consistent(*self.input) && (self.schema is None ==> forall|i: int|
            0 <= i < stream_of(*self.input).len() ==> (#[trigger] stream_of(*self.input)[i])
                is Err)
    }

    /// The schema against which rows are read.
    pub open spec fn row_schema(&self) -> AttributesView {
        match self.schema {
            Some(schema) => schema@,
            None => Seq::empty(),
        }
    }

    /// What is still to come, in order.
    pub open spec fn pending(&self) -> Seq<Result<NamedValuesView, StorageErrorView>> {
        stream_of(*self.input).map_values(|item: ItemView| decoded_item(item, self.row_schema()))
    }

    /// The result of a statement without rows.
    pub fn from(result: EmptyResult) -> (r: Self)
        ensures
            r.wf(),
            r.schema is None,
            stream_of(*r.input) == match result {
                Ok(_) => Seq::<ItemView>::empty(),
                Err(e) => seq![Err::<Seq<u8>, StorageErrorView>(e@)],
            },
    {
        EvaluationResult {
            schema: None,
            input: Box::new(Operator::Done(EmptyResultIterator { result: Some(result) })),
        }
    }

    /// Takes the first item of what is still to come.
    pub fn next(&mut self) -> (r: Option<
        Result<Vec<(AttributeName, StorageTupleValue)>, StorageError>,
    >)
        requires
            old(self).wf(),
        ensures
            final(self).wf(),
            final(self).schema == old(self).schema,
            match r {
                Some(Ok(values)) => old(self).pending().len() > 0 && old(self).pending()[0] == Ok::<
                    NamedValuesView,
                    StorageErrorView,
                >(named_value_views(values@)) && final(self).pending() == old(self).pending().skip(1),
                Some(Err(e)) => old(self).pending().len() > 0 && old(self).pending()[0] == Err::<
                    NamedValuesView,
                    StorageErrorView,
                >(e@) && final(self).pending() == old(self).pending().skip(1),
                None => old(self).pending().len() == 0 && final(self).pending().len() == 0,
            },
    {
        let ghost items = stream_of(*self.input);
        let result = self.input.next();
        proof {
            if items.len() > 0 {
                assert(items[0] is Err || self.schema is Some);
                if self.schema is None {
                    assert forall|i: int| 0 <= i < items.skip(1).len() implies (
                    #[trigger] items.skip(1)[i]) is Err by {
                        assert(items.skip(1)[i] == items[i + 1]);
                    }
                }
            }
            assert(self.pending() =~= old(self).pending().skip(
                if items.len() > 0 {
                    1int
                } else {
                    0int
                },
            ));
        }
        match result {
            Some(Ok(tuple)) => match &self.schema {
                Some(schema) => match tuple.to_values(&schema.attributes) {
                    Ok(values) => Some(Ok(values)),
                    Err(e) => Some(Err(StorageError::from(e))),
                },
                None => None,
            },
            Some(Err(e)) => Some(Err(e)),
            None => None,
        }
    }
}

impl<'storage> Evaluation<'storage> {
    /// The catalog that the statements are run against.
    pub open spec fn catalog(&self) -> CatalogView {
        self.engine.storage_manager@
    }

    /// Runs the plan: a statement that changes the catalog is carried out,
    /// and for a query the operators are built that yield its rows.
    pub fn evaluate(&mut self, plan: ExecutionPlan) -> (r: EvaluationResult)
        requires
            old(self).engine.wf(),
            runnable(plan@, old(self).catalog()),
        ensures
            final(self).engine.wf(),
            *final(final(self).engine.storage_manager) == *final(old(self).engine.storage_manager),
            r.wf(),
            final(self).catalog() == match catalog_after(plan@, old(self).catalog()) {
                Ok(catalog) => catalog,
                Err(_) => old(self).catalog(),
            },
            stream_of(*r.input) == plan_stream(plan@, old(self).catalog()),
            match output_schema(plan@) {
                Some(schema) => r.schema is Some && r.schema.unwrap()@ == schema,
                None => r.schema is None,
            },
    {
        match plan {
            ExecutionPlan::CreateTable(
                CreateTableExecutionPlan { table_name, primary_key, schema_attributes },
            ) => {
                let op = CreateTableOperation { table_name, primary_key, schema_attributes };
                EvaluationResult::from(self.engine.execute_create_table(op))
            },
            ExecutionPlan::InsertTuple(InsertTupleExecutionPlan { table_name, tuple }) => {
                EvaluationResult::from(
                    self.engine.execute_insert_tuple(InsertTupleOperation { table_name, tuple }),
                )
            },
            ExecutionPlan::Query(QueryExecutionPlan { plan }) => {
                let sub_query = self.create_query_plan(plan.result_schema, plan.plan);
                EvaluationResult { schema: Some(sub_query.schema), input: sub_query.tuples }
            },
        }
    }

    /// The scan of the table of `node`, which must exist.
    pub fn evaluate_scan(&self, node: ScanNode) -> (r: ScanOperation)
        requires
            self.engine.storage_manager.wf(),
            self.catalog().schema_of(node.table_name@) is Some,
        ensures
            r.wf(),
            r.pending() == rows_as_items(self.catalog().rows_of(node.table_name@)),
    {
        let tuples = self.engine.storage_manager.get_table_store(&node.table_name).unwrap().records();
        ScanOperation::new(tuples)
    }

    /// The filter of `node` over the operators of its child.
    pub fn evaluate_filter(&self, node: FilterNode) -> (r: FilterOperation)
        requires
            self.engine.storage_manager.wf(),
            tables_exist(QueryPlanNode::Filter(node)@, self.catalog()),
        ensures
            r.wf(),
            r.pending() == node_stream(
                QueryPlanNode::Filter(node)@,
                self.catalog(),
            ),
        decreases node,
    {
        let FilterNode { predicate, schema, child } = node;
        let child = *child;
        let sub_query = self.create_query_plan(child.result_schema, child.plan);
        FilterOperation::new(predicate, schema, sub_query.tuples)
    }

    /// The projection of `node` over the operators of its child.
    pub fn evaluate_project(&self, node: ProjectNode) -> (r: ProjectOperation)
        requires
            self.engine.storage_manager.wf(),
            tables_exist(QueryPlanNode::Project(node)@, self.catalog()),
        ensures
            r.wf(),
            r.pending() == node_stream(
                QueryPlanNode::Project(node)@,
                self.catalog(),
            ),
        decreases node,
    {
        let ProjectNode { record_schema, attributes, child, schema: _ } = node;
        let child = *child;
        let sub_query = self.create_query_plan(child.result_schema, child.plan);
        ProjectOperation { record_schema, projected_attributes: attributes, input: sub_query.tuples }
    }

    /// The join of `node` over the operators of its two sides.
    pub fn evaluate_join(&self, node: JoinNode) -> (r: InnerJoinOperation)
        requires
            self.engine.storage_manager.wf(),
            tables_exist(QueryPlanNode::Join(node)@, self.catalog()),
        ensures
            r.wf(),
            r.pending() == node_stream(QueryPlanNode::Join(node)@, self.catalog()),
        decreases node,
    {
        let JoinNode { join_type: _, predicate, schema: _, left, right } = node;
        let left = *left;
        let right = *right;
        let left = self.create_query_plan(left.result_schema, left.plan);
        let right = self.create_query_plan(right.result_schema, right.plan);
        InnerJoinOperation::new(left, right, predicate)
    }

    /// The operators of `node`, with the schema `schema` of what they yield.
    pub fn create_query_plan(&self, schema: QueryResultSchema, node: QueryPlanNode) -> (r:
        SubQueryTuples)
        requires
            self.engine.storage_manager.wf(),
            tables_exist(node@, self.catalog()),
        ensures
            r.schema == schema,
            consistent(*r.tuples),
            stream_of(*r.tuples) == node_stream(node@, self.catalog()),
        decreases node,
    {
        let tuples: Box<Operator> = match node {
            QueryPlanNode::Scan(node) => Box::new(Operator::Scan(self.evaluate_scan(node))),
            QueryPlanNode::Filter(node) => Box::new(Operator::Filter(self.evaluate_filter(node))),
            QueryPlanNode::Project(node) => Box::new(
                Operator::Project(self.evaluate_project(node)),
            ),
            QueryPlanNode::Join(node) => Box::new(Operator::Join(self.evaluate_join(node))),
        };
        SubQueryTuples { schema, tuples }
    }
}

} // verus!
