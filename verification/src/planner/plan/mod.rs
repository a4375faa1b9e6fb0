//! The logical plan of a statement.

pub mod create_plan;
pub mod insert_plan;
pub mod query_plan;

use crate::planner::plan::create_plan::{CreateTablePlan, CreateTablePlanView};
use crate::planner::plan::insert_plan::{InsertTuplePlan, InsertTuplePlanView};
use crate::planner::plan::query_plan::{QueryPlan, QueryPlanView};
use vstd::prelude::*;

verus! {

#[derive(Debug, Eq, PartialEq)]
pub enum Plan {
    CreateTable(CreateTablePlan),
    InsertTuple(InsertTuplePlan),
    Query(QueryPlan),
}

pub enum PlanView {
    CreateTable(CreateTablePlanView),
    InsertTuple(InsertTuplePlanView),
    Query(QueryPlanView),
}

impl View for Plan {
    type V = PlanView;

    open spec fn view(&self) -> PlanView {
        match self {
            Plan::CreateTable(p) => PlanView::CreateTable(p@),
            Plan::InsertTuple(p) => PlanView::InsertTuple(p@),
            Plan::Query(p) => PlanView::Query(p@),
        }
    }
}

} // verus!
