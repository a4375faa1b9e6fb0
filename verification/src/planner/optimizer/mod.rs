//! From the logical plan to the plan that is executed. The two are the same
//! plan; the step is kept as the place for rewrites.

pub mod create_table_execution_plan;
pub mod insert_tuple_execution_plan;
pub mod query_execution_plan;

use crate::planner::optimizer::create_table_execution_plan::CreateTableExecutionPlan;
use crate::planner::optimizer::insert_tuple_execution_plan::InsertTupleExecutionPlan;
use crate::planner::optimizer::query_execution_plan::QueryExecutionPlan;
use crate::planner::plan::create_plan::{CreateTablePlan, CreateTablePlanView};
use crate::planner::plan::insert_plan::{InsertTuplePlan, InsertTuplePlanView};
use crate::planner::plan::{Plan, PlanView};
use crate::planner::plan::query_plan::QueryResultSchema;
use crate::storage::storage_manager::{attribute_views, AttributesView};
use vstd::prelude::*;

verus! {

#[derive(Debug, Eq, PartialEq)]
pub enum ExecutionPlan {
    CreateTable(CreateTableExecutionPlan),
    InsertTuple(InsertTupleExecutionPlan),
    Query(QueryExecutionPlan),
}

impl View for ExecutionPlan {
    type V = PlanView;

    open spec fn view(&self) -> PlanView {
        match self {
            ExecutionPlan::CreateTable(p) => PlanView::CreateTable(
                CreateTablePlanView {
                    table_name: p.table_name@,
                    primary_key: p.primary_key@,
                    schema_attributes: attribute_views(p.schema_attributes@),
                },
            ),
            ExecutionPlan::InsertTuple(p) => PlanView::InsertTuple(
                InsertTuplePlanView { table_name: p.table_name@, tuple: p.tuple@ },
            ),
            ExecutionPlan::Query(p) => PlanView::Query(p.plan@),
        }
    }
}

/// The schema of the rows that a plan yields, where it yields rows.
pub open spec fn output_schema(plan: PlanView) -> Option<AttributesView> {
    match plan {
        PlanView::Query(query) => Some(query.result_schema),
        _ => None,
    }
}

impl ExecutionPlan {
    /// The schema of the rows that the plan yields, where it is a query.
    pub fn result_schema(&self) -> (r: Option<QueryResultSchema>)
        ensures
            match output_schema(self@) {
                Some(schema) => r is Some && r.unwrap()@ == schema,
                None => r is None,
            },
    {
        match self {
            ExecutionPlan::Query(query) => Some(query.plan.result_schema.clone()),
            ExecutionPlan::CreateTable(_) => None,
            ExecutionPlan::InsertTuple(_) => None,
        }
    }
}

pub struct Optimizer;

impl Optimizer {
    /// The plan to execute for the logical plan `plan`: the same plan.
    pub fn run(plan: Plan) -> (r: ExecutionPlan)
        ensures
            r@ == plan@,
    {
        match plan {
            Plan::CreateTable(CreateTablePlan { table_name, primary_key, schema_attributes }) => {
                ExecutionPlan::CreateTable(
                    CreateTableExecutionPlan { table_name, primary_key, schema_attributes },
                )
            },
            Plan::InsertTuple(InsertTuplePlan { table_name, tuple }) => {
                ExecutionPlan::InsertTuple(InsertTupleExecutionPlan { table_name, tuple })
            },
            Plan::Query(plan) => ExecutionPlan::Query(QueryExecutionPlan { plan }),
        }
    }
}

} // verus!
