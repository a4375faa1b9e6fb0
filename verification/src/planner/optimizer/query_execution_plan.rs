//! The executable plan of a query.

use crate::planner::plan::query_plan::QueryPlan;
use vstd::prelude::*;

verus! {

/// The plan of a query, with the schema of the rows that its root yields.
#[derive(Debug, Eq, PartialEq)]
pub struct QueryExecutionPlan {
    pub plan: QueryPlan,
}

} // verus!
